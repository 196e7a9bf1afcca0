//! The framed wire protocol: tagged request and response frames over
//! big-endian primitives, and the dispatcher that turns a request into a
//! response against the chain state.

use crate::block::{parse_signed_block, SignedBlock, SignedBlockV};
use crate::chain::{
    network_fee_spec, AddressInfo, AddressInfoV, Blockchain, Config, Properties, PropertiesV,
    TxErr,
};
use crate::script::{ScriptEngine, ScriptErr, ScriptHash};
use crate::serializer::{i64_of_bits, push_bytes, push_u16, push_u64, push_u8, ser_u64, Cursor};
use crate::tx::{parse_tx, ser_tx_v, tx_v_wf, TxV, TxVariant};
use vstd::utf8::{decode_utf8, valid_utf8};
use vstd::prelude::*;

verus! {

/// The one-byte frame tags, in tag order.
#[derive(Clone, Copy, Debug, PartialEq, Eq, Structural)]
pub enum MsgType {
    Error,
    GetProperties,
    GetBlock,
    Broadcast,
    GetAddressInfo,
}

/// The mathematical shape of a request.
pub ghost enum MsgRequestV {
    GetProperties,
    GetBlock(u64),
    Broadcast(TxV),
    GetAddressInfo(Seq<u8>),
}

/// A request frame.
#[derive(Debug)]
pub enum MsgRequest {
    GetProperties,
    GetBlock(u64),
    Broadcast(TxVariant),
    GetAddressInfo(ScriptHash),
}

impl View for MsgRequest {
    type V = MsgRequestV;

    open spec fn view(&self) -> MsgRequestV {
        match self {
            MsgRequest::GetProperties => MsgRequestV::GetProperties,
            MsgRequest::GetBlock(h) => MsgRequestV::GetBlock(*h),
            MsgRequest::Broadcast(tx) => MsgRequestV::Broadcast(tx@),
            MsgRequest::GetAddressInfo(h) => MsgRequestV::GetAddressInfo(h.addr()),
        }
    }
}

pub open spec fn req_v_wf(r: MsgRequestV) -> bool {
    match r {
        MsgRequestV::Broadcast(tx) => tx_v_wf(tx),
        MsgRequestV::GetAddressInfo(a) => a.len() == 32,
        _ => true,
    }
}

/// The canonical encoding of a request frame.
pub open spec fn ser_request(r: MsgRequestV) -> Seq<u8> {
    match r {
        MsgRequestV::GetProperties => seq![1u8],
        MsgRequestV::GetBlock(h) => seq![2u8] + ser_u64(h),
        MsgRequestV::Broadcast(tx) => seq![3u8] + ser_tx_v(tx),
        MsgRequestV::GetAddressInfo(a) => seq![4u8] + a,
    }
}

/// The canonical parse of a request frame.
pub open spec fn parse_request(s: Seq<u8>, pos: int) -> Option<(MsgRequestV, int)> {
    match crate::tx::p_u8(s, pos) {
        Option::None => None,
        Option::Some((tag, p1)) => if tag == 1 {
            Some((MsgRequestV::GetProperties, p1))
        } else if tag == 2 {
            match crate::tx::p_be(s, p1, 8) {
                Option::None => None,
                Option::Some((h, p2)) => Some((MsgRequestV::GetBlock(h as u64), p2)),
            }
        } else if tag == 3 {
            match parse_tx(s, p1) {
                Option::None => None,
                Option::Some((tx, p2)) => Some((MsgRequestV::Broadcast(tx), p2)),
            }
        } else if tag == 4 {
            match crate::tx::p_arr(s, p1, 32) {
                Option::None => None,
                Option::Some((a, p2)) => Some((MsgRequestV::GetAddressInfo(a), p2)),
            }
        } else {
            None
        },
    }
}

impl MsgRequest {
    /// Encodes the request canonically.
    pub fn serialize(self) -> (r: Vec<u8>)
        requires
            req_v_wf(self@),
        ensures
            r@ == ser_request(self@),
    {
        let mut buf: Vec<u8> = Vec::new();
        match self {
            MsgRequest::GetProperties => {
                push_u8(&mut buf, 1);
                proof {
                    assert(buf@ =~= ser_request(MsgRequestV::GetProperties));
                }
            },
            MsgRequest::GetBlock(height) => {
                push_u8(&mut buf, 2);
                push_u64(&mut buf, height);
                proof {
                    assert(buf@ =~= ser_request(MsgRequestV::GetBlock(height)));
                }
            },
            MsgRequest::Broadcast(tx) => {
                push_u8(&mut buf, 3);
                tx.serialize(&mut buf);
                proof {
                    assert(buf@ =~= ser_request(MsgRequestV::Broadcast(tx@)));
                }
            },
            MsgRequest::GetAddressInfo(hash) => {
                push_u8(&mut buf, 4);
                buf.extend_from_slice(hash.digest.bytes.as_slice());
                proof {
                    assert(buf@ =~= ser_request(MsgRequestV::GetAddressInfo(hash.addr())));
                }
            },
        }
        buf
    }

    /// Decodes one request frame: exactly the canonical parse.
    pub fn deserialize(cur: &mut Cursor) -> (r: Option<MsgRequest>)
        requires
            old(cur).wf(),
        ensures
            final(cur).data@ == old(cur).data@,
            final(cur).wf(),
            match parse_request(old(cur).data@, old(cur).pos as int) {
                Option::Some((v, p)) => r matches Some(req) && req@ == v && req_v_wf(v) && final(cur).pos == p,
                Option::None => r is None,
            },
    {
        let tag = match cur.take_u8() {
            Option::Some(t) => t,
            Option::None => {
                return None;
            },
        };
        if tag == 1 {
            Some(MsgRequest::GetProperties)
        } else if tag == 2 {
            match cur.take_u64() {
                Option::Some(h) => Some(MsgRequest::GetBlock(h)),
                Option::None => None,
            }
        } else if tag == 3 {
            match TxVariant::deserialize(cur) {
                Option::Some(tx) => Some(MsgRequest::Broadcast(tx)),
                Option::None => None,
            }
        } else if tag == 4 {
            match cur.take_digest() {
                Option::Some(d) => Some(MsgRequest::GetAddressInfo(ScriptHash { digest: d })),
                Option::None => None,
            }
        } else {
            None
        }
    }
}

/// The error codes of the error frame: unknown, bad height, then one code
/// per transaction-validation failure.
#[derive(Clone, Copy, Debug, PartialEq, Eq, Structural)]
pub enum ErrorKind {
    UnknownError,
    InvalidHeight,
    TxValidation(TxErr),
}

/// The `u16` code of each error kind.
pub open spec fn error_code(k: ErrorKind) -> u16 {
    match k {
        ErrorKind::UnknownError => 0,
        ErrorKind::InvalidHeight => 1,
        ErrorKind::TxValidation(e) => match e {
            TxErr::Arithmetic => 2,
            TxErr::InvalidFeeAmount => 3,
            TxErr::InsufficientBalance => 4,
            TxErr::TxTooLarge => 5,
            TxErr::TooManySignatures => 6,
            TxErr::ScriptHashMismatch => 7,
            TxErr::ScriptRetFalse => 8,
            TxErr::ScriptEval(_) => 9,
            TxErr::TxProhibited => 10,
        },
    }
}

/// Computes the code of an error kind.
pub fn error_code_of(k: ErrorKind) -> (r: u16)
    ensures
        r == error_code(k),
{
    match k {
        ErrorKind::UnknownError => 0,
        ErrorKind::InvalidHeight => 1,
        ErrorKind::TxValidation(e) => match e {
            TxErr::Arithmetic => 2,
            TxErr::InvalidFeeAmount => 3,
            TxErr::InsufficientBalance => 4,
            TxErr::TxTooLarge => 5,
            TxErr::TooManySignatures => 6,
            TxErr::ScriptHashMismatch => 7,
            TxErr::ScriptRetFalse => 8,
            TxErr::ScriptEval(_) => 9,
            TxErr::TxProhibited => 10,
        },
    }
}

/// A response frame.
#[derive(Debug)]
pub enum MsgResponse {
    /// A failure, with an optional text; a script-evaluation detail does
    /// not survive the wire, only its code does.
    Error(ErrorKind, Option<String>),
    GetProperties(Properties),
    GetBlock(SignedBlock),
    Broadcast,
    GetAddressInfo(AddressInfo),
}

/// The mathematical shape of a response.
pub ghost enum MsgResponseV {
    Error(ErrorKind, Option<Seq<char>>),
    GetProperties(PropertiesV),
    GetBlock(SignedBlockV),
    Broadcast,
    GetAddressInfo(AddressInfoV),
}

impl View for MsgResponse {
    type V = MsgResponseV;

    open spec fn view(&self) -> MsgResponseV {
        match self {
            MsgResponse::Error(k, m) => MsgResponseV::Error(
                *k,
                match m {
                    Option::Some(s) => Some(s@),
                    Option::None => None,
                },
            ),
            MsgResponse::GetProperties(p) => MsgResponseV::GetProperties(p@),
            MsgResponse::GetBlock(b) => MsgResponseV::GetBlock(b@),
            MsgResponse::Broadcast => MsgResponseV::Broadcast,
            MsgResponse::GetAddressInfo(i) => MsgResponseV::GetAddressInfo(i@),
        }
    }
}

/// The error kind a `u16` code decodes to; unknown codes decode to nothing.
/// A script-evaluation detail does not survive the wire: its code reads
/// back with a zero detail.
pub open spec fn kind_of_code(code: u16) -> Option<ErrorKind> {
    if code == 0 {
        Some(ErrorKind::UnknownError)
    } else if code == 1 {
        Some(ErrorKind::InvalidHeight)
    } else if code == 2 {
        Some(ErrorKind::TxValidation(TxErr::Arithmetic))
    } else if code == 3 {
        Some(ErrorKind::TxValidation(TxErr::InvalidFeeAmount))
    } else if code == 4 {
        Some(ErrorKind::TxValidation(TxErr::InsufficientBalance))
    } else if code == 5 {
        Some(ErrorKind::TxValidation(TxErr::TxTooLarge))
    } else if code == 6 {
        Some(ErrorKind::TxValidation(TxErr::TooManySignatures))
    } else if code == 7 {
        Some(ErrorKind::TxValidation(TxErr::ScriptHashMismatch))
    } else if code == 8 {
        Some(ErrorKind::TxValidation(TxErr::ScriptRetFalse))
    } else if code == 9 {
        Some(ErrorKind::TxValidation(TxErr::ScriptEval(ScriptErr { code: 0 })))
    } else if code == 10 {
        Some(ErrorKind::TxValidation(TxErr::TxProhibited))
    } else {
        None
    }
}

/// The canonical parse of a response frame: the mirror, tag by tag, of
/// [`MsgResponse::serialize`]'s encoding.
pub open spec fn parse_response(s: Seq<u8>, pos: int) -> Option<(MsgResponseV, int)> {
    match crate::tx::p_u8(s, pos) {
        Option::None => None,
        Option::Some((tag, p1)) => if tag == 0 {
            match crate::tx::p_be(s, p1, 2) {
                Option::None => None,
                Option::Some((code, p2)) => match kind_of_code(code as u16) {
                    Option::None => None,
                    Option::Some(kind) => match crate::tx::p_blob(s, p2) {
                        Option::None => None,
                        Option::Some((mb, p3)) => if mb.len() == 0 {
                            Some((MsgResponseV::Error(kind, None), p3))
                        } else if valid_utf8(mb) {
                            Some((MsgResponseV::Error(kind, Some(decode_utf8(mb))), p3))
                        } else {
                            None
                        },
                    },
                },
            }
        } else if tag == 1 {
            match crate::tx::p_be(s, p1, 8) {
                Option::None => None,
                Option::Some((height, p2)) => match parse_tx(s, p2) {
                    Option::None => None,
                    Option::Some((tv, p3)) => match tv {
                        TxV::Owner(o) => match crate::tx::p_be(s, p3, 8) {
                            Option::None => None,
                            Option::Some((supply_bits, p4)) => match crate::tx::p_be(s, p4, 8) {
                                Option::None => None,
                                Option::Some((fee_bits, p5)) => Some(
                                    (
                                        MsgResponseV::GetProperties(
                                            PropertiesV {
                                                height: height as u64,
                                                owner: o,
                                                token_supply: i64_of_bits(supply_bits),
                                                network_fee: i64_of_bits(fee_bits),
                                            },
                                        ),
                                        p5,
                                    ),
                                ),
                            },
                        },
                        _ => None,
                    },
                },
            }
        } else if tag == 2 {
            match parse_signed_block(s, p1) {
                Option::None => None,
                Option::Some((bv, p2)) => Some((MsgResponseV::GetBlock(bv), p2)),
            }
        } else if tag == 3 {
            Some((MsgResponseV::Broadcast, p1))
        } else if tag == 4 {
            match crate::tx::p_be(s, p1, 8) {
                Option::None => None,
                Option::Some((net_bits, p2)) => match crate::tx::p_be(s, p2, 8) {
                    Option::None => None,
                    Option::Some((addr_bits, p3)) => match crate::tx::p_be(s, p3, 8) {
                        Option::None => None,
                        Option::Some((bal_bits, p4)) => Some(
                            (
                                MsgResponseV::GetAddressInfo(
                                    AddressInfoV {
                                        net_fee: i64_of_bits(net_bits),
                                        addr_fee: i64_of_bits(addr_bits),
                                        balance: i64_of_bits(bal_bits),
                                    },
                                ),
                                p4,
                            ),
                        ),
                    },
                },
            }
        } else {
            None
        },
    }
}

impl MsgResponse {
    /// Whether the response is an error frame.
    pub fn is_err(&self) -> (r: bool)
        ensures
            r == (self matches MsgResponse::Error(_, _)),
    {
        match self {
            MsgResponse::Error(_, _) => true,
            _ => false,
        }
    }

    /// Encodes the response canonically: the tag, then the payload; the
    /// error frame carries its `u16` code and a length-prefixed UTF-8 text.
    pub fn serialize(self, buf: &mut Vec<u8>)
        requires
            self matches MsgResponse::GetProperties(p) ==> crate::tx::tx_v_wf(
                crate::tx::TxV::Owner(p.owner@),
            ),
            self matches MsgResponse::GetBlock(b) ==> b.wf(),
            self matches MsgResponse::Error(k, m) && m matches Some(s)
                ==> vstd::utf8::encode_utf8(s@).len() < 0x1_0000_0000,
        ensures
            final(buf)@ == old(buf)@ + match self {
                MsgResponse::Error(k, m) => seq![0u8] + crate::serializer::ser_u16(error_code(k))
                    + crate::serializer::ser_bytes(
                    match m {
                        Option::Some(s) => vstd::utf8::encode_utf8(s@),
                        Option::None => Seq::<u8>::empty(),
                    },
                ),
                MsgResponse::GetProperties(p) => seq![1u8] + crate::serializer::ser_u64(p.height)
                    + ser_tx_v(TxV::Owner(p.owner@)) + crate::serializer::ser_asset(
                    p.token_supply,
                ) + crate::serializer::ser_asset(p.network_fee),
                MsgResponse::GetBlock(b) => seq![2u8] + crate::block::ser_signed_block_v(b@),
                MsgResponse::Broadcast => seq![3u8],
                MsgResponse::GetAddressInfo(i) => seq![4u8] + crate::serializer::ser_asset(
                    i.net_fee,
                ) + crate::serializer::ser_asset(i.addr_fee) + crate::serializer::ser_asset(
                    i.balance,
                ),
            },
    {
        match self {
            MsgResponse::Error(kind, msg) => {
                push_u8(buf, 0);
                push_u16(buf, error_code_of(kind));
                match msg {
                    Option::Some(s) => {
                        push_bytes(buf, s.as_str().as_bytes());
                        proof {
                            assert(buf@ =~= old(buf)@ + (seq![0u8] + crate::serializer::ser_u16(
                                error_code(kind),
                            ) + crate::serializer::ser_bytes(vstd::utf8::encode_utf8(s@))));
                        }
                    },
                    Option::None => {
                        let empty: Vec<u8> = Vec::new();
                        push_bytes(buf, empty.as_slice());
                        proof {
                            assert(empty@ =~= Seq::<u8>::empty());
                            assert(buf@ =~= old(buf)@ + (seq![0u8] + crate::serializer::ser_u16(
                                error_code(kind),
                            ) + crate::serializer::ser_bytes(Seq::<u8>::empty())));
                        }
                    },
                }
            },
            MsgResponse::GetProperties(props) => {
                push_u8(buf, 1);
                push_u64(buf, props.height);
                let ghost ov = props.owner@;
                let owner = TxVariant::V0(crate::tx::TxVariantV0::OwnerTx(props.owner));
                owner.serialize(buf);
                crate::serializer::push_asset(buf, props.token_supply);
                crate::serializer::push_asset(buf, props.network_fee);
                proof {
                    assert(buf@ =~= old(buf)@ + (seq![1u8] + crate::serializer::ser_u64(
                        props.height,
                    ) + ser_tx_v(TxV::Owner(ov)) + crate::serializer::ser_asset(props.token_supply)
                        + crate::serializer::ser_asset(props.network_fee)));
                }
            },
            MsgResponse::GetBlock(block) => {
                push_u8(buf, 2);
                let ghost bv = block@;
                block.encode_with_tx(buf);
                proof {
                    assert(buf@ =~= old(buf)@ + (seq![2u8] + crate::block::ser_signed_block_v(
                        bv,
                    )));
                }
            },
            MsgResponse::Broadcast => {
                push_u8(buf, 3);
                proof {
                    assert(buf@ =~= old(buf)@ + seq![3u8]);
                }
            },
            MsgResponse::GetAddressInfo(info) => {
                push_u8(buf, 4);
                crate::serializer::push_asset(buf, info.net_fee);
                crate::serializer::push_asset(buf, info.addr_fee);
                crate::serializer::push_asset(buf, info.balance);
                proof {
                    assert(buf@ =~= old(buf)@ + (seq![4u8] + crate::serializer::ser_asset(
                        info.net_fee,
                    ) + crate::serializer::ser_asset(info.addr_fee)
                        + crate::serializer::ser_asset(info.balance)));
                }
            },
        }
    }

    /// Decodes one response frame. Succeeds exactly when the canonical
    /// parse does, and returns exactly the parsed view.
    #[verifier::rlimit(100)]
    pub fn deserialize(cur: &mut Cursor) -> (r: Option<MsgResponse>)
        requires
            old(cur).wf(),
        ensures
            final(cur).data@ == old(cur).data@,
            final(cur).wf(),
            match parse_response(old(cur).data@, old(cur).pos as int) {
                Option::Some((v, p)) => r matches Some(resp) && resp@ == v && final(cur).pos == p,
                Option::None => r is None,
            },
            r matches Some(MsgResponse::GetBlock(b)) ==> b.wf(),
    {
        let ghost s = cur.data@;
        let ghost pos0 = cur.pos as int;
        let tag = match cur.take_u8() {
            Option::Some(t) => t,
            Option::None => {
                return None;
            },
        };
        if tag == 0 {
            let code = match cur.take_u16() {
                Option::Some(c) => c,
                Option::None => {
                    return None;
                },
            };
            let kind = if code == 0 {
                ErrorKind::UnknownError
            } else if code == 1 {
                ErrorKind::InvalidHeight
            } else if code == 2 {
                ErrorKind::TxValidation(TxErr::Arithmetic)
            } else if code == 3 {
                ErrorKind::TxValidation(TxErr::InvalidFeeAmount)
            } else if code == 4 {
                ErrorKind::TxValidation(TxErr::InsufficientBalance)
            } else if code == 5 {
                ErrorKind::TxValidation(TxErr::TxTooLarge)
            } else if code == 6 {
                ErrorKind::TxValidation(TxErr::TooManySignatures)
            } else if code == 7 {
                ErrorKind::TxValidation(TxErr::ScriptHashMismatch)
            } else if code == 8 {
                ErrorKind::TxValidation(TxErr::ScriptRetFalse)
            } else if code == 9 {
                ErrorKind::TxValidation(TxErr::ScriptEval(ScriptErr { code: 0 }))
            } else if code == 10 {
                ErrorKind::TxValidation(TxErr::TxProhibited)
            } else {
                return None;
            };
            let msg_bytes = match cur.take_bytes() {
                Option::Some(b) => b,
                Option::None => {
                    return None;
                },
            };
            let ghost mb = msg_bytes@;
            let msg: Option<String> = if msg_bytes.len() == 0 {
                None
            } else {
                match crate::util::string_from_utf8(msg_bytes) {
                    Option::Some(text) => Some(text),
                    Option::None => {
                        proof {
                            assert(!valid_utf8(mb));
                        }
                        return None;
                    },
                }
            };
            proof {
                assert(kind_of_code(code) == Some(kind));
            }
            Some(MsgResponse::Error(kind, msg))
        } else if tag == 1 {
            let height = match cur.take_u64() {
                Option::Some(v) => v,
                Option::None => {
                    return None;
                },
            };
            let owner_tx = match TxVariant::deserialize(cur) {
                Option::Some(t) => t,
                Option::None => {
                    return None;
                },
            };
            let owner = match owner_tx {
                TxVariant::V0(crate::tx::TxVariantV0::OwnerTx(o)) => o,
                _ => {
                    return None;
                },
            };
            let token_supply = match cur.take_asset() {
                Option::Some(v) => v,
                Option::None => {
                    return None;
                },
            };
            let network_fee = match cur.take_asset() {
                Option::Some(v) => v,
                Option::None => {
                    return None;
                },
            };
            Some(
                MsgResponse::GetProperties(
                    Properties { height, owner, token_supply, network_fee },
                ),
            )
        } else if tag == 2 {
            match SignedBlock::decode_with_tx(cur) {
                Option::Some(b) => Some(MsgResponse::GetBlock(b)),
                Option::None => None,
            }
        } else if tag == 3 {
            Some(MsgResponse::Broadcast)
        } else if tag == 4 {
            let net_fee = match cur.take_asset() {
                Option::Some(v) => v,
                Option::None => {
                    return None;
                },
            };
            let addr_fee = match cur.take_asset() {
                Option::Some(v) => v,
                Option::None => {
                    return None;
                },
            };
            let balance = match cur.take_asset() {
                Option::Some(v) => v,
                Option::None => {
                    return None;
                },
            };
            Some(MsgResponse::GetAddressInfo(AddressInfo { net_fee, addr_fee, balance }))
        } else {
            None
        }
    }
}

/// An error frame survives the wire: parsing its own canonical encoding
/// gives back the kind — with a script-evaluation detail zeroed, since only
/// its code travels — and the message. The encoding is exactly what
/// [`MsgResponse::serialize`] appends for an error response.
pub proof fn lemma_error_frame_round_trip(kind: ErrorKind, msg: Option<Seq<char>>)
    requires
        msg matches Some(m) ==> m.len() > 0 && vstd::utf8::encode_utf8(m).len() < 0x1_0000_0000,
    ensures
        ({
            let mb = match msg {
                Option::Some(m) => vstd::utf8::encode_utf8(m),
                Option::None => Seq::<u8>::empty(),
            };
            let frame = seq![0u8] + crate::serializer::ser_u16(error_code(kind))
                + crate::serializer::ser_bytes(mb);
            parse_response(frame, 0) == Some::<(MsgResponseV, int)>(
                (
                    MsgResponseV::Error(kind_of_code(error_code(kind))->Some_0, msg),
                    frame.len() as int,
                ),
            )
        }),
{
    let mb = match msg {
        Option::Some(m) => vstd::utf8::encode_utf8(m),
        Option::None => Seq::<u8>::empty(),
    };
    let code = error_code(kind);
    let frame = seq![0u8] + crate::serializer::ser_u16(code) + crate::serializer::ser_bytes(mb);
    crate::serializer::lemma_pow256_values();
    crate::serializer::lemma_be_bytes_props(code as nat, 2);
    crate::serializer::lemma_be_bytes_props(mb.len(), 4);
    assert(frame.subrange(0, frame.len() as int) =~= frame);
    assert(frame =~= seq![0u8] + (crate::serializer::ser_u16(code) + (crate::serializer::be_bytes(
        mb.len(),
        4,
    ) + mb)));
    crate::tx::lemma_subrange_split(
        frame,
        0,
        seq![0u8],
        crate::serializer::ser_u16(code) + (crate::serializer::be_bytes(mb.len(), 4) + mb),
    );
    assert(frame.subrange(0, 1)[0] == frame[0]);
    crate::tx::lemma_subrange_split(
        frame,
        1,
        crate::serializer::ser_u16(code),
        crate::serializer::be_bytes(mb.len(), 4) + mb,
    );
    crate::tx::lemma_subrange_split(frame, 3, crate::serializer::be_bytes(mb.len(), 4), mb);
    assert(crate::tx::p_u8(frame, 0) == Some::<(u8, int)>((0u8, 1)));
    assert(crate::tx::p_be(frame, 1, 2) == Some::<(nat, int)>((code as nat, 3)));
    assert(kind_of_code(code) is Some);
    assert(crate::tx::p_blob(frame, 3) == Some::<(Seq<u8>, int)>((mb, frame.len() as int)));
    match msg {
        Option::Some(m) => {
            vstd::utf8::encode_utf8_valid_utf8(m);
            vstd::utf8::encode_utf8_decode_utf8(m);
            assert(mb.len() > 0);
        },
        Option::None => {
            assert(mb.len() == 0);
        },
    }
}

/// Serves one request against the chain: reads answer from the index and
/// the store, and a broadcast is validated and, when accepted, appended to
/// the pending pool.
pub fn handle_request<E: ScriptEngine>(
    chain: &mut Blockchain,
    engine: &mut E,
    pool: &mut Vec<TxVariant>,
    req: MsgRequest,
) -> (r: MsgResponse)
    requires
        old(chain).wf(),
        req_v_wf(req@),
        old(pool)@.len() < 0xFFFF_FFFF,
        forall|i: int| 0 <= i < old(pool)@.len() ==> tx_v_wf(#[trigger] old(pool)@[i]@),
    ensures
        final(chain).wf(),
        *final(chain) == *old(chain),
        forall|i: int| 0 <= i < final(pool)@.len() ==> tx_v_wf(#[trigger] final(pool)@[i]@),
        req@ is GetProperties ==> final(pool)@ == old(pool)@ && (match network_fee_spec(
            old(chain).blocks(),
        ) {
            Option::Some(nf) => r matches MsgResponse::GetProperties(p) && p.height as nat == old(
                chain,
            ).blocks().len() - 1 && p.owner@ == old(chain).owner_v() && p.token_supply.amount
                as int == old(chain).supply() && p.network_fee.amount as int == nf,
            Option::None => r == MsgResponse::Error(
                ErrorKind::UnknownError,
                Option::<String>::None,
            ),
        }),
        req@ matches MsgRequestV::GetBlock(h) ==> final(pool)@ == old(pool)@ && (
        (h as nat) < old(chain).blocks().len() ==> (r matches MsgResponse::GetBlock(b) && b@.block
            == old(chain).blocks()[h as int])) && ((h as nat) >= old(chain).blocks().len()
            ==> r == MsgResponse::Error(ErrorKind::InvalidHeight, Option::<String>::None)),
        req@ matches MsgRequestV::Broadcast(tv) ==> exists|ev: Result<bool, ScriptErr>|
            match #[trigger] old(chain).verify_tx_spec(
                tv,
                crate::block::txs_view(old(pool)@),
                false,
                ev,
            ) {
                Result::Ok(_) => r == MsgResponse::Broadcast && final(pool)@.len() == old(
                    pool,
                )@.len() + 1 && final(pool)@.last()@ == tv,
                Result::Err(e) => r == MsgResponse::Error(
                    ErrorKind::TxValidation(e),
                    Option::<String>::None,
                ) && final(pool)@ == old(pool)@,
            },
        req@ matches MsgRequestV::GetAddressInfo(a) ==> final(pool)@ == old(pool)@ && (match (
            network_fee_spec(old(chain).blocks()),
            crate::chain::address_fee_spec(
                old(chain).blocks(),
                crate::block::txs_view(old(pool)@),
                a,
            ),
        ) {
            (Option::Some(nf), Option::Some(af)) => r matches MsgResponse::GetAddressInfo(info)
                && info.net_fee.amount as int == nf && info.addr_fee.amount as int == af
                && info.balance.amount as int == old(chain).bal(a),
            _ => r == MsgResponse::Error(ErrorKind::UnknownError, Option::<String>::None),
        }),
{
    match req {
        MsgRequest::GetProperties => {
            match chain.get_network_fee() {
                Option::Some(_) => MsgResponse::GetProperties(chain.get_properties()),
                Option::None => MsgResponse::Error(ErrorKind::UnknownError, None),
            }
        },
        MsgRequest::GetBlock(height) => {
            match chain.get_block(height) {
                Option::Some(b) => MsgResponse::GetBlock(b.duplicate()),
                Option::None => MsgResponse::Error(ErrorKind::InvalidHeight, None),
            }
        },
        MsgRequest::Broadcast(tx) => {
            let data = crate::tx::TxPrecompData::from_tx(tx);
            let verdict = chain.verify_tx(engine, &data, pool.as_slice(), Config {
                skip_reward: false,
            });
            match verdict {
                Result::Ok(_) => {
                    pool.push(data.take());
                    MsgResponse::Broadcast
                },
                Result::Err(e) => MsgResponse::Error(ErrorKind::TxValidation(e), None),
            }
        },
        MsgRequest::GetAddressInfo(hash) => {
            match chain.get_address_info(&hash, pool.as_slice()) {
                Option::Some(info) => MsgResponse::GetAddressInfo(info),
                Option::None => MsgResponse::Error(ErrorKind::UnknownError, None),
            }
        },
    }
}

} // verus!
