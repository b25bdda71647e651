use vstd::prelude::*;
use crate::flags::{Flags, flag_at};

verus! {

/// Whether `c` is a decimal digit.
pub open spec fn is_digit(c: char) -> bool {
    '0' <= c <= '9'
}

/// The value of a string of decimal digits.
pub open spec fn digits_value(s: Seq<char>) -> int
    decreases s.len(),
{
    if s.len() == 0 {
        0
    } else {
        10 * digits_value(s.drop_last()) + (s.last() as int - '0' as int)
    }
}

/// `s` without a leading `+`, if it has one.
pub open spec fn strip_plus(s: Seq<char>) -> Seq<char> {
    if s.len() > 0 && s[0] == '+' {
        s.drop_first()
    } else {
        s
    }
}

/// Whether every character of `d` is a decimal digit.
pub open spec fn all_digits(d: Seq<char>) -> bool {
    forall|i: int| 0 <= i < d.len() ==> is_digit(#[trigger] d[i])
}

/// The number that one or more decimal digits spell, where it fits.
pub open spec fn digits_number(d: Seq<char>) -> Option<usize> {
    if d.len() == 0 || !all_digits(d) || digits_value(d) > usize::MAX {
        None
    } else {
        Some(digits_value(d) as usize)
    }
}

/// How a string reads as an unsigned machine-size number: an optional `+`,
/// then one or more decimal digits whose value fits.
pub open spec fn parse_usize_spec(s: Seq<char>) -> Option<usize> {
    digits_number(strip_plus(s))
}

proof fn lemma_digits_value_nonneg(s: Seq<char>)
    requires
        all_digits(s),
    ensures
        digits_value(s) >= 0,
    decreases s.len(),
{
    if s.len() > 0 {
        assert(all_digits(s.drop_last()));
        lemma_digits_value_nonneg(s.drop_last());
    }
}

proof fn lemma_digits_value_grows(s: Seq<char>, k: int)
    requires
        0 <= k <= s.len(),
        all_digits(s),
    ensures
        digits_value(s.take(k)) <= digits_value(s),
    decreases s.len() - k,
{
    if k < s.len() {
        let t = s.take(k + 1);
        assert(t.drop_last() =~= s.take(k));
        assert(all_digits(s.take(k)));
        lemma_digits_value_nonneg(s.take(k));
        lemma_digits_value_grows(s, k + 1);
    } else {
        assert(s.take(k) =~= s);
    }
}

/// Once a prefix of digits is too large, so is the whole.
proof fn lemma_overflow_stays(d: Seq<char>, k: int)
    requires
        0 < k <= d.len(),
        digits_value(d.take(k)) > usize::MAX,
    ensures
        digits_number(d) is None,
{
    if all_digits(d) {
        lemma_digits_value_grows(d, k);
    }
}

/// Reads `s[from..to]` as a number (see [`parse_usize_spec`]).
pub fn parse_usize(s: &Vec<char>, from: usize, to: usize) -> (r: Option<usize>)
    requires
        from <= to <= s@.len(),
    ensures
        r == parse_usize_spec(s@.subrange(from as int, to as int)),
{
    let ghost whole = s@.subrange(from as int, to as int);
    let mut start = from;
    if from < to && s[from] == '+' {
        start = from + 1;
    }
    let ghost d = s@.subrange(start as int, to as int);
    proof {
        assert(d =~= strip_plus(whole));
    }
    if start == to {
        return None;
    }
    let mut acc: usize = 0;
    let mut i = start;
    while i < to
        invariant
            start <= i <= to,
            to <= s@.len(),
            start < to,
            d == s@.subrange(start as int, to as int),
            whole == s@.subrange(from as int, to as int),
            parse_usize_spec(whole) == digits_number(d),
            forall|j: int| 0 <= j < i - start ==> is_digit(#[trigger] d[j]),
            d.take(i - start) == s@.subrange(start as int, i as int),
            acc == digits_value(d.take(i - start)),
        decreases to - i,
    {
        let c = s[i];
        let ghost k = i + 1 - start;
        proof {
            assert(d.take(k) =~= s@.subrange(start as int, i + 1));
            assert(d.take(k).drop_last() =~= d.take(k - 1));
            assert(d.take(k).last() == c);
        }
        if !('0' <= c && c <= '9') {
            proof {
                assert(!is_digit(d[k - 1]));
            }
            return None;
        }
        let digit = (c as u32 - '0' as u32) as usize;
        match acc.checked_mul(10) {
            None => {
                proof {
                    assert(digits_value(d.take(k)) == 10 * acc + (c as int - '0' as int));
                    lemma_overflow_stays(d, k);
                }
                return None;
            },
            Some(m) => match m.checked_add(digit) {
                None => {
                    proof {
                        lemma_overflow_stays(d, k);
                    }
                    return None;
                },
                Some(v) => {
                    acc = v;
                },
            },
        }
        i = i + 1;
    }
    proof {
        assert(d.take(i - start) =~= d);
    }
    Some(acc)
}

/// A flag id or range as typed in a chat command.
#[derive(Clone, Copy, Debug, PartialEq, Eq, Structural)]
pub enum FlagRange {
    /// Flags `lower` to `upper`, both included.
    Range { lower: usize, upper: usize },
    /// One flag.
    Single(usize),
    /// A text with a dash whose two numbers do not read or are out of order.
    InvalidRange,
    /// A text without a dash that does not read as a number.
    InvalidId,
}

/// The position of the first `c` in `s` from position `from`, or `s.len()`.
pub open spec fn next_char(s: Seq<char>, from: int, c: char) -> int
    decreases s.len() - from,
{
    if from >= s.len() {
        s.len() as int
    } else if s[from] == c {
        from
    } else {
        next_char(s, from + 1, c)
    }
}

/// How a flag range text reads: with a dash, the texts before the first dash
/// and between it and the next dash are the bounds, which must read as
/// numbers in order; without one, the whole text is the id.
pub open spec fn flag_range_spec(s: Seq<char>) -> FlagRange {
    let d1 = next_char(s, 0, '-');
    if d1 < s.len() {
        let d2 = next_char(s, d1 + 1, '-');
        match (parse_usize_spec(s.subrange(0, d1)), parse_usize_spec(s.subrange(d1 + 1, d2))) {
            (Some(lower), Some(upper)) => if lower > upper {
                FlagRange::InvalidRange
            } else {
                FlagRange::Range { lower, upper }
            },
            _ => FlagRange::InvalidRange,
        }
    } else {
        match parse_usize_spec(s) {
            Some(id) => FlagRange::Single(id),
            None => FlagRange::InvalidId,
        }
    }
}

proof fn lemma_next_char_bounds(s: Seq<char>, from: int, c: char)
    requires
        0 <= from,
    ensures
        from <= next_char(s, from, c) || next_char(s, from, c) == s.len(),
        next_char(s, from, c) <= s.len(),
    decreases s.len() - from,
{
    if from < s.len() && s[from] != c {
        lemma_next_char_bounds(s, from + 1, c);
    }
}

fn find_char(s: &Vec<char>, from: usize, c: char) -> (r: usize)
    requires
        from <= s@.len(),
    ensures
        r == next_char(s@, from as int, c),
        from <= r <= s@.len(),
{
    let mut i = from;
    while i < s.len()
        invariant
            from <= i <= s@.len(),
            next_char(s@, from as int, c) == next_char(s@, i as int, c),
        decreases s@.len() - i,
    {
        if s[i] == c {
            return i;
        }
        i = i + 1;
    }
    i
}

/// Reads a flag id or range from a chat command argument.
pub fn parse_flag_range(range: &str) -> (r: FlagRange)
    ensures
        r == flag_range_spec(range@),
{
    broadcast use vstd::string::group_string_axioms;

    let mut chars: Vec<char> = Vec::new();
    for c in iter: range.chars()
        invariant
            iter.seq() == range@,
            chars@ == range@.take(iter.index() as int),
    {
        chars.push(c);
        proof {
            assert(chars@ =~= range@.take(iter.index() + 1));
        }
    }
    proof {
        assert(chars@ =~= range@);
    }
    let n = chars.len();
    let d1 = find_char(&chars, 0, '-');
    if d1 < n {
        let d2 = find_char(&chars, d1 + 1, '-');
        let lower = parse_usize(&chars, 0, d1);
        let upper = parse_usize(&chars, d1 + 1, d2);
        match (lower, upper) {
            (Some(l), Some(u)) => if l > u {
                FlagRange::InvalidRange
            } else {
                FlagRange::Range { lower: l, upper: u }
            },
            _ => FlagRange::InvalidRange,
        }
    } else {
        proof {
            assert(chars@.subrange(0, n as int) =~= chars@);
        }
        match parse_usize(&chars, 0, n) {
            Some(id) => FlagRange::Single(id),
            None => FlagRange::InvalidId,
        }
    }
}

/// Sets flags `lower` to `upper` (both included) to the lowest bit of `val`;
/// every other flag keeps its value.
pub fn set_flag_range(flags: &mut Flags, lower: usize, upper: usize, val: u8)
    requires
        lower <= upper,
    ensures
        forall|j: int| lower <= j <= upper ==> #[trigger] final(flags).flag(j) == val & 1,
        forall|j: int| !(lower <= j <= upper) ==> #[trigger] final(flags).flag(j) == old(flags).flag(j),
        final(flags)@.params == old(flags)@.params,
{
    let mut i = lower;
    loop
        invariant
            lower <= i <= upper,
            forall|j: int| lower <= j < i ==> #[trigger] flags.flag(j) == val & 1,
            forall|j: int| !(lower <= j < i) ==> #[trigger] flags.flag(j) == old(flags).flag(j),
            flags@.params == old(flags)@.params,
        decreases upper - i,
    {
        flags.set(i, val);
        if i == upper {
            return;
        }
        i = i + 1;
    }
}

/// Where a chat message goes.
#[derive(Clone, Copy, Debug, PartialEq, Eq, Structural)]
pub enum ChatRoute {
    /// A command: the text after the `!`.
    Command,
    /// To the players in the sender's zone.
    Zone,
    /// To the sender's party.
    Party,
    /// Nowhere.
    Drop,
}

/// The chat channels a client can write to.
#[derive(Clone, Copy, Debug, PartialEq, Eq, Structural)]
pub enum MessageChannel {
    Zone,
    Party,
    Other,
}

/// A message that starts with `!` is a command; otherwise map and party
/// messages go to the zone and the party, and the rest nowhere.
pub open spec fn chat_route_spec(message: Seq<char>, channel: MessageChannel) -> ChatRoute {
    if message.len() > 0 && message[0] == '!' {
        ChatRoute::Command
    } else {
        match channel {
            MessageChannel::Zone => ChatRoute::Zone,
            MessageChannel::Party => ChatRoute::Party,
            MessageChannel::Other => ChatRoute::Drop,
        }
    }
}

/// A message starting with `!` is a command, on every channel; any other
/// message is never a command and goes where its channel says, whatever its
/// text: zone chat to the zone, party chat to the party, the rest nowhere.
pub proof fn law_bang_is_command(message: Seq<char>, other: Seq<char>, channel: MessageChannel)
    ensures
        message.len() > 0 && message[0] == '!' ==> chat_route_spec(message, channel) == ChatRoute::Command,
        !(message.len() > 0 && message[0] == '!') ==> chat_route_spec(message, channel) != ChatRoute::Command,
        !(message.len() > 0 && message[0] == '!') && !(other.len() > 0 && other[0] == '!') ==> chat_route_spec(
            message,
            channel,
        ) == chat_route_spec(other, channel),
        !(message.len() > 0 && message[0] == '!') ==> (chat_route_spec(message, channel) == ChatRoute::Zone
            <==> channel == MessageChannel::Zone),
        !(message.len() > 0 && message[0] == '!') ==> (chat_route_spec(message, channel) == ChatRoute::Party
            <==> channel == MessageChannel::Party),
{
}

/// Chooses where a chat message goes.
pub fn chat_route(message: &str, channel: MessageChannel) -> (r: ChatRoute)
    ensures
        r == chat_route_spec(message@, channel),
{
    broadcast use vstd::string::group_string_axioms;

    let mut first: Option<char> = None;
    for c in iter: message.chars()
        invariant
            iter.seq() == message@,
            iter.index() > 0 ==> first == Some(message@[0]),
            iter.index() == 0 ==> first is None,
    {
        if first.is_none() {
            first = Some(c);
        }
    }
    if first == Some('!') {
        ChatRoute::Command
    } else {
        match channel {
            MessageChannel::Zone => ChatRoute::Zone,
            MessageChannel::Party => ChatRoute::Party,
            MessageChannel::Other => ChatRoute::Drop,
        }
    }
}

} // verus!
