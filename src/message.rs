//! Control messages delivered over the message bus, and the identifiers they
//! carry.

use vstd::prelude::*;

verus! {

pub open spec fn is_digit(c: char) -> bool {
    '0' <= c && c <= '9'
}

/// The number written by a string of decimal digits.
pub open spec fn decimal_value(s: Seq<char>) -> int
    decreases s.len(),
{
    if s.len() == 0 {
        0
    } else {
        decimal_value(s.drop_last()) * 10 + (s.last() as int - '0' as int)
    }
}

/// The digits of an identifier's text: the text without one leading `+`.
pub open spec fn id_digits(s: Seq<char>) -> Seq<char> {
    if s.len() > 0 && s[0] == '+' {
        s.skip(1)
    } else {
        s
    }
}

/// An optional `+` and then a non-empty run of decimal digits whose value
/// fits in 64 bits: the texts that std reads as a `u64`.
pub open spec fn is_id_text(s: Seq<char>) -> bool {
    let d = id_digits(s);
    &&& d.len() > 0
    &&& forall|i: int| 0 <= i < d.len() ==> is_digit(#[trigger] d[i])
    &&& decimal_value(d) <= u64::MAX
}

/// The number an identifier's text stands for.
pub open spec fn id_value(s: Seq<char>) -> int {
    decimal_value(id_digits(s))
}

proof fn lemma_prefix_value_bounded(s: Seq<char>, i: int)
    requires
        0 <= i <= s.len(),
        forall|j: int| 0 <= j < s.len() ==> is_digit(#[trigger] s[j]),
    ensures
        0 <= decimal_value(s.take(i)) <= decimal_value(s),
    decreases s.len(),
{
    if s.len() > 0 {
        let p = s.drop_last();
        assert forall|j: int| 0 <= j < p.len() implies is_digit(#[trigger] p[j]) by {
            assert(p[j] == s[j]);
        }
        if i == s.len() {
            assert(s.take(i) =~= s);
            lemma_prefix_value_bounded(p, p.len() as int);
            assert(p.take(p.len() as int) =~= p);
            assert(is_digit(s[s.len() - 1]));
        } else {
            lemma_prefix_value_bounded(p, i);
            lemma_prefix_value_bounded(p, p.len() as int);
            assert(p.take(i) =~= s.take(i));
            assert(p.take(p.len() as int) =~= p);
            assert(is_digit(s[s.len() - 1]));
        }
    } else {
        assert(s.take(i) =~= s);
    }
}

/// Reads an identifier written as decimal digits, optionally after a `+`;
/// `None` unless the whole text has that form and its value fits in 64 bits.
pub fn parse_id(s: &str) -> (r: Option<u64>)
    ensures
        r is Some <==> is_id_text(s@),
        r matches Some(v) ==> v == id_value(s@),
{
    let n = s.unicode_len();
    let start: usize = if n > 0 && s.get_char(0) == '+' { 1 } else { 0 };
    let ghost d = id_digits(s@);
    assert(d =~= s@.subrange(start as int, n as int));
    if n == start {
        return None;
    }
    let mut acc: u64 = 0;
    let mut i: usize = start;
    while i < n
        invariant
            n == s@.len(),
            start <= i <= n,
            d == s@.subrange(start as int, n as int),
            d == id_digits(s@),
            forall|j: int| start <= j < i ==> is_digit(#[trigger] s@[j]),
            acc == decimal_value(s@.subrange(start as int, i as int)),
        decreases n - i,
    {
        let c = s.get_char(i);
        let ghost next = s@.subrange(start as int, i + 1);
        proof {
            assert(next.drop_last() =~= s@.subrange(start as int, i as int));
            assert(next.last() == c);
            assert(d[i - start] == s@[i as int]);
            assert(d.take(i + 1 - start) =~= next);
        }
        if !('0' <= c && c <= '9') {
            assert(!is_digit(d[i - start]));
            return None;
        }
        let dv = (c as u32 - '0' as u32) as u64;
        proof {
            assert forall|j: int| start <= j < i + 1 implies is_digit(#[trigger] s@[j]) by {}
        }
        let m = acc.checked_mul(10);
        if m.is_none() {
            proof {
                assert(decimal_value(next) > u64::MAX);
                let k: int = i + 1 - start;
                assert(d.take(k) =~= next);
                assert(!is_id_text(s@)) by {
                    if is_id_text(s@) {
                        lemma_prefix_value_bounded(d, k);
                    }
                }
            }
            return None;
        }
        let m = m.unwrap();
        let v = m.checked_add(dv);
        if v.is_none() {
            proof {
                assert(decimal_value(next) > u64::MAX);
                let k: int = i + 1 - start;
                assert(d.take(k) =~= next);
                assert(!is_id_text(s@)) by {
                    if is_id_text(s@) {
                        lemma_prefix_value_bounded(d, k);
                    }
                }
            }
            return None;
        }
        acc = v.unwrap();
        i = i + 1;
    }
    proof {
        assert forall|j: int| 0 <= j < d.len() implies is_digit(#[trigger] d[j]) by {
            assert(d[j] == s@[start + j]);
        }
    }
    Some(acc)
}

/// A voice-platform server (guild) identifier.
#[derive(Clone, Copy, Debug, PartialEq, Eq, Structural)]
pub struct GuildIdDef(pub u64);

/// A voice-platform user identifier.
#[derive(Clone, Copy, Debug, PartialEq, Eq, Structural)]
pub struct UserIdDef(pub u64);

/// What is needed to join one specific voice call.
#[derive(Clone, Debug)]
pub struct ConnectionInfo {
    pub endpoint: String,
    pub guild_id: GuildIdDef,
    pub session_id: String,
    pub token: String,
    pub user_id: UserIdDef,
}

impl ConnectionInfo {
    /// An identical, independently owned copy.
    pub fn duplicate(&self) -> (r: ConnectionInfo)
        ensures
            r == *self,
    {
        ConnectionInfo {
            endpoint: self.endpoint.clone(),
            guild_id: self.guild_id,
            session_id: self.session_id.clone(),
            token: self.token.clone(),
            user_id: self.user_id,
        }
    }
}

/// An operator's command, as decoded from the message bus.
#[derive(Clone, Debug)]
pub enum OperatorMsg {
    /// Join (or move to) the voice call that `info` describes.
    Join { info: ConnectionInfo },
    /// Toggle between paused and playing.
    PausePlay,
}

} // verus!
