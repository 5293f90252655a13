//! The typed messages the actors exchange, and their wire codec.
//!
//! A message is written as an ASCII tag, followed for the payload-carrying
//! kinds by one space and the payload in decimal. Decoding tolerates extra
//! whitespace and a missing payload (read as zero), exactly as a
//! whitespace-splitting reader would; a payload that is not a number, a tag
//! that is not known, or an empty datagram each yield a typed error instead
//! of a crash.

use crate::digits::{all_dec_digits, dec_digits, dec_val, parse_u64, u64_to_dec};
use vstd::prelude::*;

verus! {

/// One message of the wire contract: exactly five variants.
#[derive(Clone, Copy, Debug, PartialEq, Eq, Structural)]
pub enum Msg {
    /// A station announces that it has run dry and names itself.
    IdleStation(usize),
    /// A quantity of fuel (or a fuel request, or a zero-valued pickup ping).
    Fuel(u64),
    /// Command: start loading from the mine.
    TankLoad,
    /// Command or acknowledgment: transfer a chunk to the target station.
    TankUnload,
    /// Instruction to pick the next move.
    TankMove,
}

/// Why a datagram could not be decoded.
#[derive(Clone, Copy, Debug, PartialEq, Eq, Structural)]
pub enum MsgError {
    /// The datagram held no token at all.
    Empty,
    /// The leading tag names no known message kind.
    UnknownKind,
    /// The payload token is not an unsigned decimal number in range.
    BadPayload,
}

/// Is `b` an ASCII whitespace byte?
pub open spec fn is_space(b: u8) -> bool {
    b == 32 || b == 9 || b == 10 || b == 11 || b == 12 || b == 13
}

/// The whitespace-separated tokens of `s`, with `cur` the token read so far.
pub open spec fn tokens_from(s: Seq<u8>, cur: Seq<u8>) -> Seq<Seq<u8>>
    decreases s.len(),
{
    if s.len() == 0 {
        if cur.len() == 0 {
            seq![]
        } else {
            seq![cur]
        }
    } else if is_space(s[0]) {
        if cur.len() == 0 {
            tokens_from(s.drop_first(), seq![])
        } else {
            seq![cur] + tokens_from(s.drop_first(), seq![])
        }
    } else {
        tokens_from(s.drop_first(), cur.push(s[0]))
    }
}

/// The whitespace-separated tokens of `s`.
pub open spec fn spec_tokens(s: Seq<u8>) -> Seq<Seq<u8>> {
    tokens_from(s, seq![])
}

/// The tag bytes of each message kind.
pub open spec fn idle_tag() -> Seq<u8> {
    seq![105u8, 100u8, 108u8, 101u8]  // "idle"
}

pub open spec fn fuel_tag() -> Seq<u8> {
    seq![102u8, 117u8, 101u8, 108u8]  // "fuel"
}

pub open spec fn load_tag() -> Seq<u8> {
    seq![108u8, 111u8, 97u8, 100u8]  // "load"
}

pub open spec fn unload_tag() -> Seq<u8> {
    seq![117u8, 110u8, 108u8, 111u8, 97u8, 100u8]  // "unload"
}

pub open spec fn move_tag() -> Seq<u8> {
    seq![109u8, 111u8, 118u8, 101u8]  // "move"
}

/// The wire bytes of a message: the tag, then for the payload-carrying kinds
/// one space and the payload in decimal.
pub open spec fn spec_encode(m: Msg) -> Seq<u8> {
    match m {
        Msg::IdleStation(i) => idle_tag() + seq![32u8] + dec_digits(i as nat),
        Msg::Fuel(a) => fuel_tag() + seq![32u8] + dec_digits(a as nat),
        Msg::TankLoad => load_tag(),
        Msg::TankUnload => unload_tag(),
        Msg::TankMove => move_tag(),
    }
}

/// The message denoted by the wire bytes `s`, or the error naming what is
/// wrong with them. The first token is the tag; a second token, whichever
/// the tag, must be an in-range decimal number and is the payload (a missing
/// payload reads as zero); further tokens are ignored.
pub open spec fn spec_decode(s: Seq<u8>) -> Result<Msg, MsgError> {
    let toks = spec_tokens(s);
    if toks.len() == 0 {
        Err(MsgError::Empty)
    } else if toks.len() >= 2 && !(all_dec_digits(toks[1]) && dec_val(toks[1]) <= u64::MAX) {
        Err(MsgError::BadPayload)
    } else {
        let payload: int = if toks.len() >= 2 {
            dec_val(toks[1])
        } else {
            0
        };
        if toks[0] == idle_tag() {
            if payload <= usize::MAX {
                Ok(Msg::IdleStation(payload as usize))
            } else {
                Err(MsgError::BadPayload)
            }
        } else if toks[0] == fuel_tag() {
            Ok(Msg::Fuel(payload as u64))
        } else if toks[0] == load_tag() {
            Ok(Msg::TankLoad)
        } else if toks[0] == unload_tag() {
            Ok(Msg::TankUnload)
        } else if toks[0] == move_tag() {
            Ok(Msg::TankMove)
        } else {
            Err(MsgError::UnknownKind)
        }
    }
}

/// Every token produced by tokenization holds at least one byte.
proof fn lemma_tokens_nonempty(s: Seq<u8>, cur: Seq<u8>)
    ensures
        forall|i: int|
            0 <= i < tokens_from(s, cur).len() ==> #[trigger] tokens_from(s, cur)[i].len() >= 1,
    decreases s.len(),
{
    if s.len() == 0 {
        assert forall|i: int| 0 <= i < tokens_from(s, cur).len() implies #[trigger] tokens_from(
            s,
            cur,
        )[i].len() >= 1 by {
            if cur.len() != 0 {
                assert(tokens_from(s, cur) == seq![cur]);
                assert(tokens_from(s, cur)[i] == cur);
            }
        }
    } else if is_space(s[0]) {
        lemma_tokens_nonempty(s.drop_first(), seq![]);
        let rest = tokens_from(s.drop_first(), seq![]);
        assert forall|i: int| 0 <= i < tokens_from(s, cur).len() implies #[trigger] tokens_from(
            s,
            cur,
        )[i].len() >= 1 by {
            if cur.len() == 0 {
                assert(tokens_from(s, cur) == rest);
                assert(rest[i].len() >= 1);
            } else {
                assert(tokens_from(s, cur) == seq![cur] + rest);
                if i == 0 {
                    assert(tokens_from(s, cur)[i] == cur);
                } else {
                    assert(tokens_from(s, cur)[i] == rest[i - 1]);
                    assert(rest[i - 1].len() >= 1);
                }
            }
        }
    } else {
        lemma_tokens_nonempty(s.drop_first(), cur.push(s[0]));
        let rest = tokens_from(s.drop_first(), cur.push(s[0]));
        assert forall|i: int| 0 <= i < tokens_from(s, cur).len() implies #[trigger] tokens_from(
            s,
            cur,
        )[i].len() >= 1 by {
            assert(tokens_from(s, cur) == rest);
            assert(rest[i].len() >= 1);
        }
    }
}

/// No byte of `s` is whitespace.
spec fn no_spaces(s: Seq<u8>) -> bool {
    forall|i: int| 0 <= i < s.len() ==> !is_space(#[trigger] s[i])
}

/// Reading a whitespace-free prefix only moves it into the current token.
proof fn lemma_tokens_shift(a: Seq<u8>, rest: Seq<u8>, cur: Seq<u8>)
    requires
        no_spaces(a),
    ensures
        tokens_from(a + rest, cur) == tokens_from(rest, cur + a),
    decreases a.len(),
{
    if a.len() == 0 {
        assert(a + rest =~= rest);
        assert(cur + a =~= cur);
    } else {
        assert((a + rest)[0] == a[0]);
        assert(!is_space(a[0]));
        assert((a + rest).drop_first() =~= a.drop_first() + rest);
        assert(no_spaces(a.drop_first())) by {
            assert forall|i: int| 0 <= i < a.drop_first().len() implies !is_space(
                #[trigger] a.drop_first()[i],
            ) by {
                assert(a.drop_first()[i] == a[i + 1]);
            }
        }
        lemma_tokens_shift(a.drop_first(), rest, cur.push(a[0]));
        assert(cur.push(a[0]) + a.drop_first() =~= cur + a);
    }
}

/// A datagram of one whitespace-free word tokenizes to that word alone.
proof fn lemma_tokens_single(tag: Seq<u8>)
    requires
        no_spaces(tag),
        tag.len() >= 1,
    ensures
        spec_tokens(tag) == seq![tag],
{
    assert(tag =~= tag + Seq::<u8>::empty());
    lemma_tokens_shift(tag, Seq::<u8>::empty(), Seq::<u8>::empty());
    assert(Seq::<u8>::empty() + tag =~= tag);
    assert(spec_tokens(tag) =~= seq![tag]);
}

/// A tag, one space and a payload word tokenize to exactly those two tokens.
proof fn lemma_tokens_pair(tag: Seq<u8>, payload: Seq<u8>)
    requires
        no_spaces(tag),
        tag.len() >= 1,
        no_spaces(payload),
        payload.len() >= 1,
    ensures
        spec_tokens(tag + seq![32u8] + payload) == seq![tag, payload],
{
    let s = tag + seq![32u8] + payload;
    let mid = seq![32u8] + payload;
    assert(s =~= tag + mid);
    lemma_tokens_shift(tag, mid, Seq::<u8>::empty());
    assert(Seq::<u8>::empty() + tag =~= tag);
    assert(mid[0] == 32u8 && is_space(32u8));
    assert(mid.drop_first() =~= payload);
    assert(tokens_from(mid, tag) == seq![tag] + tokens_from(payload, Seq::<u8>::empty()));
    assert(payload =~= payload + Seq::<u8>::empty());
    lemma_tokens_shift(payload, Seq::<u8>::empty(), Seq::<u8>::empty());
    assert(Seq::<u8>::empty() + payload =~= payload);
    assert(tokens_from(payload, Seq::<u8>::empty()) == seq![payload]);
    assert(spec_tokens(s) =~= seq![tag, payload]);
}

/// None of the five tags holds whitespace, and no two are the same word.
proof fn lemma_tags_distinct()
    ensures
        no_spaces(idle_tag()),
        no_spaces(fuel_tag()),
        no_spaces(load_tag()),
        no_spaces(unload_tag()),
        no_spaces(move_tag()),
        idle_tag() != fuel_tag(),
        idle_tag() != load_tag(),
        idle_tag() != unload_tag(),
        idle_tag() != move_tag(),
        fuel_tag() != load_tag(),
        fuel_tag() != unload_tag(),
        fuel_tag() != move_tag(),
        load_tag() != unload_tag(),
        load_tag() != move_tag(),
        unload_tag() != move_tag(),
{
    assert(idle_tag()[0] == 105u8);
    assert(fuel_tag()[0] == 102u8);
    assert(load_tag()[0] == 108u8);
    assert(unload_tag()[0] == 117u8);
    assert(move_tag()[0] == 109u8);
}

/// The digits of a number are whitespace-free.
proof fn lemma_digits_no_spaces(n: nat)
    ensures
        no_spaces(dec_digits(n)),
        dec_digits(n).len() >= 1,
{
    crate::digits::lemma_dec_digits_shape(n);
    let d = dec_digits(n);
    assert forall|i: int| 0 <= i < d.len() implies !is_space(#[trigger] d[i]) by {
        assert(crate::digits::is_dec_digit(d[i]));
    }
}

/// Round trip: decoding an encoded message gives the message back, for every
/// variant and every payload value.
pub proof fn lemma_round_trip(m: Msg)
    ensures
        spec_decode(spec_encode(m)) == Ok::<Msg, MsgError>(m),
{
    lemma_tags_distinct();
    match m {
        Msg::IdleStation(i) => {
            let d = dec_digits(i as nat);
            lemma_digits_no_spaces(i as nat);
            assert(spec_encode(m) =~= idle_tag() + seq![32u8] + d);
            lemma_tokens_pair(idle_tag(), d);
            crate::digits::lemma_dec_val_of_digits(i as nat);
            crate::digits::lemma_dec_digits_shape(i as nat);
            assert(spec_tokens(spec_encode(m))[1] == d);
            assert(dec_val(d) == i as nat);
        },
        Msg::Fuel(a) => {
            let d = dec_digits(a as nat);
            lemma_digits_no_spaces(a as nat);
            assert(spec_encode(m) =~= fuel_tag() + seq![32u8] + d);
            lemma_tokens_pair(fuel_tag(), d);
            crate::digits::lemma_dec_val_of_digits(a as nat);
            crate::digits::lemma_dec_digits_shape(a as nat);
            assert(spec_tokens(spec_encode(m))[1] == d);
            assert(dec_val(d) == a as nat);
        },
        Msg::TankLoad => {
            lemma_tokens_single(load_tag());
        },
        Msg::TankUnload => {
            lemma_tokens_single(unload_tag());
        },
        Msg::TankMove => {
            lemma_tokens_single(move_tag());
        },
    }
}

impl Msg {
    /// Render the message as wire bytes.
    pub fn encode(self) -> (r: Vec<u8>)
        ensures
            r@ == spec_encode(self),
    {
        match self {
            Msg::IdleStation(i) => {
                let mut v = tag_vec(Tag::Idle);
                v.push(32);
                let mut d = u64_to_dec(i as u64);
                v.append(&mut d);
                proof {
                    assert(v@ =~= spec_encode(self));
                }
                v
            },
            Msg::Fuel(a) => {
                let mut v = tag_vec(Tag::FuelWord);
                v.push(32);
                let mut d = u64_to_dec(a);
                v.append(&mut d);
                proof {
                    assert(v@ =~= spec_encode(self));
                }
                v
            },
            Msg::TankLoad => tag_vec(Tag::Load),
            Msg::TankUnload => tag_vec(Tag::Unload),
            Msg::TankMove => tag_vec(Tag::Move),
        }
    }

    /// Read a message back from wire bytes.
    pub fn decode(data: &Vec<u8>) -> (r: Result<Msg, MsgError>)
        ensures
            r == spec_decode(data@),
    {
        let toks = tokenize(data);
        let ghost stoks = spec_tokens(data@);
        if toks.len() == 0 {
            return Err(MsgError::Empty);
        }
        proof {
            lemma_tokens_nonempty(data@, Seq::<u8>::empty());
        }
        let payload: u64 = if toks.len() >= 2 {
            let t = &toks[1];
            proof {
                assert(t@ == stoks[1]);
            }
            match parse_u64(t, 0, t.len()) {
                Some(v) => {
                    proof {
                        assert(t@.subrange(0, t@.len() as int) =~= t@);
                    }
                    v
                },
                None => {
                    proof {
                        assert(t@.subrange(0, t@.len() as int) =~= t@);
                        assert(stoks[1].len() >= 1);
                    }
                    return Err(MsgError::BadPayload);
                },
            }
        } else {
            0
        };
        let tag = &toks[0];
        proof {
            assert(tag@ == stoks[0]);
        }
        if eq_tag(tag, Tag::Idle) {
            if payload <= usize::MAX as u64 {
                Ok(Msg::IdleStation(payload as usize))
            } else {
                Err(MsgError::BadPayload)
            }
        } else if eq_tag(tag, Tag::FuelWord) {
            Ok(Msg::Fuel(payload))
        } else if eq_tag(tag, Tag::Load) {
            Ok(Msg::TankLoad)
        } else if eq_tag(tag, Tag::Unload) {
            Ok(Msg::TankUnload)
        } else if eq_tag(tag, Tag::Move) {
            Ok(Msg::TankMove)
        } else {
            Err(MsgError::UnknownKind)
        }
    }
}

/// One of the five wire tags, used to pick the byte pattern to compare with.
#[derive(Clone, Copy, PartialEq, Eq, Structural)]
enum Tag {
    Idle,
    FuelWord,
    Load,
    Unload,
    Move,
}

/// The byte pattern of a tag.
spec fn tag_seq(t: Tag) -> Seq<u8> {
    match t {
        Tag::Idle => idle_tag(),
        Tag::FuelWord => fuel_tag(),
        Tag::Load => load_tag(),
        Tag::Unload => unload_tag(),
        Tag::Move => move_tag(),
    }
}

/// The byte pattern of a tag, as a vector.
fn tag_vec(t: Tag) -> (r: Vec<u8>)
    ensures
        r@ == tag_seq(t),
{
    let mut v: Vec<u8> = Vec::new();
    match t {
        Tag::Idle => {
            v.push(105);
            v.push(100);
            v.push(108);
            v.push(101);
        },
        Tag::FuelWord => {
            v.push(102);
            v.push(117);
            v.push(101);
            v.push(108);
        },
        Tag::Load => {
            v.push(108);
            v.push(111);
            v.push(97);
            v.push(100);
        },
        Tag::Unload => {
            v.push(117);
            v.push(110);
            v.push(108);
            v.push(111);
            v.push(97);
            v.push(100);
        },
        Tag::Move => {
            v.push(109);
            v.push(111);
            v.push(118);
            v.push(101);
        },
    }
    proof {
        assert(v@ =~= tag_seq(t));
    }
    v
}

/// Does the token spell the given tag?
fn eq_tag(a: &Vec<u8>, t: Tag) -> (r: bool)
    ensures
        r == (a@ == tag_seq(t)),
{
    let b = tag_vec(t);
    eq_bytes(a, &b)
}

/// Compare two byte vectors for equality, byte for byte.
fn eq_bytes(a: &Vec<u8>, b: &Vec<u8>) -> (r: bool)
    ensures
        r == (a@ == b@),
{
    if a.len() != b.len() {
        return false;
    }
    let n = a.len();
    let mut i: usize = 0;
    while i < n
        invariant
            0 <= i <= n,
            n == a@.len() == b@.len(),
            forall|j: int| 0 <= j < i ==> a@[j] == b@[j],
        decreases n - i,
    {
        if a[i] != b[i] {
            return false;
        }
        i = i + 1;
    }
    proof {
        assert(a@ =~= b@);
    }
    true
}

/// Split `data` into its whitespace-separated tokens.
fn tokenize(data: &Vec<u8>) -> (r: Vec<Vec<u8>>)
    ensures
        r.deep_view() == spec_tokens(data@),
{
    let mut toks: Vec<Vec<u8>> = Vec::new();
    let mut cur: Vec<u8> = Vec::new();
    let mut i: usize = 0;
    proof {
        assert(data@.skip(0) =~= data@);
        assert(toks.deep_view() =~= Seq::<Seq<u8>>::empty());
    }
    while i < data.len()
        invariant
            0 <= i <= data@.len(),
            spec_tokens(data@) == toks.deep_view() + tokens_from(data@.skip(i as int), cur@),
        decreases data@.len() - i,
    {
        let ghost rest = data@.skip(i as int);
        let b = data[i];
        proof {
            assert(rest[0] == data@[i as int]);
            assert(rest.drop_first() =~= data@.skip(i + 1));
        }
        if b == 32 || b == 9 || b == 10 || b == 11 || b == 12 || b == 13 {
            if cur.len() > 0 {
                let ghost old_toks = toks.deep_view();
                let ghost cur_view = cur@;
                toks.push(cur);
                cur = Vec::new();
                proof {
                    assert(toks.deep_view() =~~= old_toks.push(cur_view));
                    assert(old_toks + (seq![cur_view] + tokens_from(
                        data@.skip(i + 1),
                        Seq::<u8>::empty(),
                    )) =~= toks.deep_view() + tokens_from(data@.skip(i + 1), cur@));
                }
            } else {
                proof {
                    assert(cur@ =~= Seq::<u8>::empty());
                }
            }
        } else {
            cur.push(b);
        }
        i = i + 1;
    }
    proof {
        assert(data@.skip(i as int) =~= Seq::<u8>::empty());
    }
    if cur.len() > 0 {
        let ghost old_toks = toks.deep_view();
        let ghost cur_view = cur@;
        toks.push(cur);
        proof {
            assert(toks.deep_view() =~~= old_toks.push(cur_view));
            assert(spec_tokens(data@) =~= toks.deep_view());
        }
    } else {
        proof {
            assert(cur@ =~= Seq::<u8>::empty());
            assert(spec_tokens(data@) =~= toks.deep_view());
        }
    }
    toks
}

} // verus!
