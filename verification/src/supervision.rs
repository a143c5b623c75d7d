//! Supervision deciders compiled from a table of failure class paths.
//!
//! A failure arrives as a message `"<module>.<qualname>: <repr>"`. The class
//! path is the text before the first `": "` (the whole message if there is
//! none), with surrounding whitespace removed. The decider looks the class
//! path up in its table, then its bare class name (the part after the last
//! `'.'`), and falls back to its default directive.

use vstd::prelude::*;
use crate::str_map::StrMap;
use crate::text::str_eq;

verus! {

/// What a supervisor does with a failed child.
#[derive(Debug, Clone, Copy, PartialEq, Eq, Structural)]
pub enum Directive {
    Resume,
    Restart,
    Stop,
    Escalate,
}

/// The directive a name stands for.
pub open spec fn directive_named(s: Seq<char>) -> Option<Directive> {
    if s == "resume"@ {
        Some(Directive::Resume)
    } else if s == "restart"@ {
        Some(Directive::Restart)
    } else if s == "stop"@ {
        Some(Directive::Stop)
    } else if s == "escalate"@ {
        Some(Directive::Escalate)
    } else {
        None
    }
}

/// The message that refuses an unknown directive name.
pub open spec fn unknown_directive_message(s: Seq<char>) -> Seq<char> {
    "unknown directive `"@ + s + "`; expected one of resume | restart | stop | escalate"@
}

/// Parses a directive name.
pub fn parse_directive(s: &str) -> (r: Result<Directive, String>)
    ensures
        match r {
            Ok(d) => directive_named(s@) == Some(d),
            Err(m) => directive_named(s@) is None && m@ == unknown_directive_message(s@),
        },
{
    if str_eq(s, "resume") {
        Ok(Directive::Resume)
    } else if str_eq(s, "restart") {
        Ok(Directive::Restart)
    } else if str_eq(s, "stop") {
        Ok(Directive::Stop)
    } else if str_eq(s, "escalate") {
        Ok(Directive::Escalate)
    } else {
        let mut m = String::from_str("unknown directive `");
        m.append(s);
        m.append("`; expected one of resume | restart | stop | escalate");
        Err(m)
    }
}

/// The name of a directive.
pub fn directive_name(d: Directive) -> (s: &'static str)
    ensures
        directive_named(s@) == Some(d),
{
    proof {
        reveal_strlit("resume");
        reveal_strlit("restart");
        reveal_strlit("stop");
        reveal_strlit("escalate");
        assert("resume"@.len() == 6 && "restart"@.len() == 7);
        assert("stop"@.len() == 4 && "escalate"@.len() == 8);
    }
    match d {
        Directive::Resume => "resume",
        Directive::Restart => "restart",
        Directive::Stop => "stop",
        Directive::Escalate => "escalate",
    }
}

/// The table a list of `(class path, directive name)` rules builds, later
/// rules replacing earlier ones; refused with the message for the first
/// unknown directive name.
pub open spec fn rules_from(pairs: Seq<(String, String)>) -> Result<Map<Seq<char>, Directive>, Seq<char>>
    decreases pairs.len(),
{
    if pairs.len() == 0 {
        Ok(Map::empty())
    } else {
        match rules_from(pairs.drop_last()) {
            Err(m) => Err(m),
            Ok(m) => match directive_named(pairs.last().1@) {
                Some(d) => Ok(m.insert(pairs.last().0@, d)),
                None => Err(unknown_directive_message(pairs.last().1@)),
            },
        }
    }
}

/// Unicode white space, as `char::is_whitespace` defines it.
pub open spec fn is_ws(c: char) -> bool {
    let u = c as u32;
    (0x9 <= u <= 0xd) || u == 0x20 || u == 0x85 || u == 0xa0 || u == 0x1680 || (0x2000 <= u
        <= 0x200a) || u == 0x2028 || u == 0x2029 || u == 0x202f || u == 0x205f || u == 0x3000
}

/// Whether `c` is white space.
pub fn is_whitespace(c: char) -> (r: bool)
    ensures
        r == is_ws(c),
{
    let u = c as u32;
    (0x9 <= u && u <= 0xd) || u == 0x20 || u == 0x85 || u == 0xa0 || u == 0x1680 || (0x2000 <= u
        && u <= 0x200a) || u == 0x2028 || u == 0x2029 || u == 0x202f || u == 0x205f || u == 0x3000
}

/// Position of the first `": "` in `s`.
pub open spec fn first_separator(s: Seq<char>) -> Option<nat>
    decreases s.len(),
{
    if s.len() < 2 {
        None
    } else if s[0] == ':' && s[1] == ' ' {
        Some(0)
    } else {
        match first_separator(s.drop_first()) {
            Some(i) => Some(i + 1),
            None => None,
        }
    }
}

/// Number of white-space characters that start `s`.
pub open spec fn leading_ws(s: Seq<char>) -> nat
    decreases s.len(),
{
    if s.len() > 0 && is_ws(s[0]) {
        1 + leading_ws(s.drop_first())
    } else {
        0
    }
}

/// Number of white-space characters that end `s`.
pub open spec fn trailing_ws(s: Seq<char>) -> nat
    decreases s.len(),
{
    if s.len() > 0 && is_ws(s.last()) {
        1 + trailing_ws(s.drop_last())
    } else {
        0
    }
}

/// `s` without leading and trailing white space.
pub open spec fn trimmed(s: Seq<char>) -> Seq<char> {
    let t = s.skip(leading_ws(s) as int);
    t.take(t.len() - trailing_ws(t))
}

/// The class path of a failure message.
pub open spec fn class_path_of(msg: Seq<char>) -> Seq<char> {
    match first_separator(msg) {
        Some(i) => trimmed(msg.take(i as int)),
        None => trimmed(msg),
    }
}

/// Position of the last `'.'` in `s`.
pub open spec fn last_dot(s: Seq<char>) -> Option<nat>
    decreases s.len(),
{
    if s.len() == 0 {
        None
    } else if s.last() == '.' {
        Some((s.len() - 1) as nat)
    } else {
        last_dot(s.drop_last())
    }
}

/// The directive a table and default give a class path.
pub open spec fn decision(rules: Map<Seq<char>, Directive>, default: Directive, cp: Seq<char>) -> Directive {
    if rules.contains_key(cp) {
        rules[cp]
    } else {
        match last_dot(cp) {
            Some(i) => if rules.contains_key(cp.skip(i as int + 1)) {
                rules[cp.skip(i as int + 1)]
            } else {
                default
            },
            None => default,
        }
    }
}

/// The first separator, found by scanning from the left.
fn find_separator(s: &str) -> (r: Option<usize>)
    ensures
        match r {
            Some(i) => first_separator(s@) == Some(i as nat),
            None => first_separator(s@) is None,
        },
{
    let n = s.unicode_len();
    let mut i: usize = 0;
    assert(s@.skip(0) =~= s@);
    while n >= 2 && i < n - 1
        invariant
            n == s@.len(),
            i <= n,
            first_separator(s@) == (match first_separator(s@.skip(i as int)) {
                Some(k) => Some((k + i) as nat),
                None => None,
            }),
        decreases n - i,
    {
        proof {
            let t = s@.skip(i as int);
            assert(t.drop_first() =~= s@.skip(i + 1));
        }
        if s.get_char(i) == ':' && s.get_char(i + 1) == ' ' {
            return Some(i);
        }
        i = i + 1;
    }
    proof {
        assert(s@.skip(i as int).len() < 2);
    }
    None
}

proof fn lemma_leading_skip(s: Seq<char>, a: int)
    requires
        0 <= a <= s.len(),
        forall|j: int| 0 <= j < a ==> is_ws(#[trigger] s[j]),
    ensures
        leading_ws(s) == a + leading_ws(s.skip(a)),
    decreases a,
{
    if a > 0 {
        assert(s.drop_first().skip(a - 1) =~= s.skip(a));
        lemma_leading_skip(s.drop_first(), a - 1);
    } else {
        assert(s.skip(0) =~= s);
    }
}

proof fn lemma_trailing_take(s: Seq<char>, b: int)
    requires
        0 <= b <= s.len(),
        forall|j: int| b <= j < s.len() ==> is_ws(#[trigger] s[j]),
    ensures
        trailing_ws(s) == (s.len() - b) + trailing_ws(s.take(b)),
    decreases s.len() - b,
{
    if b < s.len() {
        assert(s.drop_last().take(b) =~= s.take(b));
        lemma_trailing_take(s.drop_last(), b);
    } else {
        assert(s.take(b) =~= s);
    }
}

/// `s[lo..hi]` without leading and trailing white space.
fn trim_range(s: &str, lo: usize, hi: usize) -> (r: (usize, usize))
    requires
        lo <= hi <= s@.len(),
    ensures
        lo <= r.0 <= r.1 <= hi,
        s@.subrange(r.0 as int, r.1 as int) == trimmed(s@.subrange(lo as int, hi as int)),
{
    let ghost u = s@.subrange(lo as int, hi as int);
    let mut a = lo;
    while a < hi && is_whitespace(s.get_char(a))
        invariant
            lo <= a <= hi,
            hi <= s@.len(),
            u == s@.subrange(lo as int, hi as int),
            forall|j: int| lo <= j < a ==> is_ws(#[trigger] s@[j]),
        decreases hi - a,
    {
        a = a + 1;
    }
    proof {
        assert forall|j: int| 0 <= j < a - lo implies is_ws(#[trigger] u[j]) by {
            assert(u[j] == s@[lo + j]);
        }
        lemma_leading_skip(u, a - lo);
        if a < hi {
            assert(u.skip(a - lo)[0] == s@[a as int]);
        }
    }
    let ghost t = u.skip(leading_ws(u) as int);
    proof {
        assert(t =~= s@.subrange(a as int, hi as int));
    }
    let mut b = hi;
    while b > a && is_whitespace(s.get_char(b - 1))
        invariant
            lo <= a <= b <= hi,
            hi <= s@.len(),
            forall|j: int| b <= j < hi ==> is_ws(#[trigger] s@[j]),
        decreases b - a,
    {
        b = b - 1;
    }
    proof {
        assert forall|j: int| b - a <= j < t.len() implies is_ws(#[trigger] t[j]) by {
            assert(t[j] == s@[a + j]);
        }
        lemma_trailing_take(t, b - a);
        if b > a {
            assert(t.take(b - a).last() == s@[b - 1]);
        }
        assert(t.take(t.len() - trailing_ws(t)) =~= s@.subrange(a as int, b as int));
    }
    (a, b)
}

/// The last `'.'` of `s[lo..hi]`, as a position in `s`.
pub(crate) fn find_last_dot(s: &str, lo: usize, hi: usize) -> (r: Option<usize>)
    requires
        lo <= hi <= s@.len(),
    ensures
        match r {
            Some(i) => lo <= i < hi && last_dot(s@.subrange(lo as int, hi as int)) == Some(
                (i - lo) as nat,
            ),
            None => last_dot(s@.subrange(lo as int, hi as int)) is None,
        },
{
    let mut j = hi;
    while j > lo
        invariant
            lo <= j <= hi,
            hi <= s@.len(),
            last_dot(s@.subrange(lo as int, hi as int)) == last_dot(s@.subrange(lo as int, j as int)),
        decreases j - lo,
    {
        assert(s@.subrange(lo as int, j as int).drop_last() =~= s@.subrange(lo as int, j - 1));
        if s.get_char(j - 1) == '.' {
            return Some(j - 1);
        }
        j = j - 1;
    }
    None
}

/// A compiled decider: a table from class paths (or bare class names) to
/// directives, and a default.
pub struct Decider {
    rules: StrMap<Directive>,
    default: Directive,
}

impl Decider {
    pub closed spec fn rules_spec(&self) -> Map<Seq<char>, Directive> {
        self.rules@
    }

    pub closed spec fn default_spec(&self) -> Directive {
        self.default
    }

    pub closed spec fn wf(&self) -> bool {
        self.rules.wf()
    }

    /// A decider over this table and default.
    pub fn new(rules: StrMap<Directive>, default: Directive) -> (d: Self)
        requires
            rules.wf(),
        ensures
            d.wf(),
            d.rules_spec() == rules@,
            d.default_spec() == default,
    {
        Decider { rules, default }
    }

    /// The directive for the failure message `panic_msg`.
    pub fn decide(&self, panic_msg: &str) -> (r: Directive)
        requires
            self.wf(),
        ensures
            r == decision(self.rules_spec(), self.default_spec(), class_path_of(panic_msg@)),
    {
        let n = panic_msg.unicode_len();
        let end = match find_separator(panic_msg) {
            Some(i) => i,
            None => n,
        };
        proof {
            if end < n {
                assert(first_separator(panic_msg@) is Some);
            }
            assert(panic_msg@.subrange(0, n as int) =~= panic_msg@);
            assert(panic_msg@.subrange(0, end as int) =~= panic_msg@.take(end as int));
            if first_separator(panic_msg@) is Some {
                lemma_separator_in_range(panic_msg@);
            }
        }
        let (a, b) = trim_range(panic_msg, 0, end);
        let cp = panic_msg.substring_char(a, b);
        if let Some(d) = self.rules.get(cp) {
            return *d;
        }
        match find_last_dot(panic_msg, a, b) {
            Some(i) => {
                let bare = panic_msg.substring_char(i + 1, b);
                proof {
                    assert(bare@ =~= cp@.skip(i + 1 - a));
                }
                match self.rules.get(bare) {
                    Some(d) => *d,
                    None => self.default,
                }
            },
            None => self.default,
        }
    }
}

/// Builds a decider from an optional rule list and an optional default
/// directive name (restart when absent).
#[verifier::loop_isolation(false)]
pub fn compile_decider(decider: Option<Vec<(String, String)>>, default: Option<String>) -> (r: Result<
    Decider,
    String,
>)
    ensures
        match r {
            Ok(d) => {
                &&& d.wf()
                &&& rules_from(
                    match decider {
                        Some(v) => v@,
                        None => Seq::empty(),
                    },
                ) == Ok::<Map<Seq<char>, Directive>, Seq<char>>(d.rules_spec())
                &&& match default {
                    Some(s) => directive_named(s@) == Some(d.default_spec()),
                    None => d.default_spec() == Directive::Restart,
                }
            },
            Err(m) => match rules_from(
                match decider {
                    Some(v) => v@,
                    None => Seq::empty(),
                },
            ) {
                Err(rm) => m@ == rm,
                Ok(_) => match default {
                    Some(s) => directive_named(s@) is None && m@ == unknown_directive_message(s@),
                    None => false,
                },
            },
        },
{
    let mut rules: StrMap<Directive> = StrMap::new();
    let ghost dec = decider;
    let ghost pairs: Seq<(String, String)> = match dec {
        Some(v) => v@,
        None => Seq::empty(),
    };
    if let Some(rs) = decider {
        let mut i: usize = 0;
        while i < rs.len()
            invariant
                pairs == rs@,
                i <= rs@.len(),
                rules.wf(),
                rules_from(rs@.take(i as int)) == Ok::<Map<Seq<char>, Directive>, Seq<char>>(
                    rules@,
                ),
            decreases rs@.len() - i,
        {
            proof {
                assert(rs@.take(i + 1).drop_last() =~= rs@.take(i as int));
            }
            let d = match parse_directive(rs[i].1.as_str()) {
                Ok(d) => d,
                Err(m) => {
                    proof {
                        assert(rs@.take(i + 1).last() == rs@[i as int]);
                        assert(rules_from(rs@.take(i + 1)) == Err::<Map<Seq<char>, Directive>, Seq<char>>(
                            unknown_directive_message(rs@[i as int].1@),
                        ));
                        lemma_rules_from_error_sticks(rs@, i as int + 1);
                        assert(rules_from(pairs) == Err::<Map<Seq<char>, Directive>, Seq<char>>(m@));
                    }
                    return Err(m);
                },
            };
            rules.insert(rs[i].0.clone(), d);
            i = i + 1;
        }
        assert(rs@.take(rs@.len() as int) =~= rs@);
    } else {
        assert(rules_from(pairs) == Ok::<Map<Seq<char>, Directive>, Seq<char>>(rules@));
    }
    let default_directive = match default {
        Some(s) => parse_directive(s.as_str())?,
        None => Directive::Restart,
    };
    Ok(Decider::new(rules, default_directive))
}

/// Once a prefix of the rule list is refused, the whole list is refused
/// with the same message.
proof fn lemma_rules_from_error_sticks(pairs: Seq<(String, String)>, k: int)
    requires
        0 <= k <= pairs.len(),
        rules_from(pairs.take(k)) is Err,
    ensures
        rules_from(pairs) == rules_from(pairs.take(k)),
    decreases pairs.len() - k,
{
    if k < pairs.len() {
        assert(pairs.take(k + 1).drop_last() =~= pairs.take(k));
        lemma_rules_from_error_sticks(pairs, k + 1);
    } else {
        assert(pairs.take(k) =~= pairs);
    }
}

proof fn lemma_separator_in_range(s: Seq<char>)
    requires
        first_separator(s) is Some,
    ensures
        first_separator(s)->0 + 2 <= s.len(),
    decreases s.len(),
{
    if s.len() >= 2 && !(s[0] == ':' && s[1] == ' ') {
        lemma_separator_in_range(s.drop_first());
    }
}

/// The last dot of `p.k`, where `k` has no dot, is the one before `k`.
proof fn lemma_last_dot_before(p: Seq<char>, k: Seq<char>)
    requires
        !k.contains('.'),
    ensures
        last_dot(p + seq!['.'] + k) == Some(p.len()),
    decreases k.len(),
{
    let s = p + seq!['.'] + k;
    if k.len() == 0 {
        assert(s.last() == '.');
    } else {
        assert(s.last() == k.last());
        assert(k.last() != '.') by {
            if k.last() == '.' {
                assert(k[k.len() - 1] == '.');
            }
        }
        assert(!k.drop_last().contains('.')) by {
            if k.drop_last().contains('.') {
                let j = choose|j: int| 0 <= j < k.drop_last().len() && k.drop_last()[j] == '.';
                assert(k[j] == '.');
            }
        }
        assert(s.drop_last() =~= p + seq!['.'] + k.drop_last());
        lemma_last_dot_before(p, k.drop_last());
    }
}

/// A failure whose class path `p.k` (with `k` free of dots) has no rule of
/// its own is decided by the rule of its bare class name `k`, the text
/// after the last dot, when there is one, and by the default otherwise.
pub proof fn lemma_bare_name_after_last_dot(
    rules: Map<Seq<char>, Directive>,
    default: Directive,
    p: Seq<char>,
    k: Seq<char>,
)
    requires
        !k.contains('.'),
        !rules.contains_key(p + seq!['.'] + k),
    ensures
        decision(rules, default, p + seq!['.'] + k) == (if rules.contains_key(k) {
            rules[k]
        } else {
            default
        }),
{
    lemma_last_dot_before(p, k);
    assert((p + seq!['.'] + k).skip(p.len() as int + 1) =~= k);
}

/// The first `": "` of `cp + ": " + rest`, where `cp` has no colon, comes
/// right after `cp`.
proof fn lemma_separator_after(cp: Seq<char>, rest: Seq<char>)
    requires
        !cp.contains(':'),
    ensures
        first_separator(cp + seq![':', ' '] + rest) == Some(cp.len()),
    decreases cp.len(),
{
    let s = cp + seq![':', ' '] + rest;
    if cp.len() > 0 {
        assert(s[0] == cp[0]);
        assert(cp[0] != ':') by {
            if cp[0] == ':' {
                assert(cp.contains(':'));
            }
        }
        assert(!cp.drop_first().contains(':')) by {
            if cp.drop_first().contains(':') {
                let j = choose|j: int| 0 <= j < cp.drop_first().len() && cp.drop_first()[j] == ':';
                assert(cp[j + 1] == ':');
            }
        }
        assert(s.drop_first() =~= cp.drop_first() + seq![':', ' '] + rest);
        lemma_separator_after(cp.drop_first(), rest);
    } else {
        assert(s[0] == ':' && s[1] == ' ');
    }
}

/// The class path of a message `cp: rest` is `cp`, when `cp` has no colon
/// and neither starts nor ends with white space.
pub proof fn lemma_class_path_of_message(cp: Seq<char>, rest: Seq<char>)
    requires
        cp.len() > 0,
        !cp.contains(':'),
        !is_ws(cp[0]),
        !is_ws(cp.last()),
    ensures
        class_path_of(cp + seq![':', ' '] + rest) == cp,
{
    lemma_separator_after(cp, rest);
    let s = cp + seq![':', ' '] + rest;
    assert(s.take(cp.len() as int) =~= cp);
    assert(leading_ws(cp) == 0);
    assert(cp.skip(0) =~= cp);
    assert(trailing_ws(cp) == 0);
    assert(cp.take(cp.len() as int) =~= cp);
}

/// A message `p.k: rest`, whose class path has no rule of its own, is
/// decided by the rule of the bare class name `k` after the last dot, else
/// by the default.
pub proof fn lemma_decide_by_bare_name(
    rules: Map<Seq<char>, Directive>,
    default: Directive,
    p: Seq<char>,
    k: Seq<char>,
    rest: Seq<char>,
)
    requires
        p.len() > 0,
        k.len() > 0,
        !p.contains(':'),
        !k.contains(':'),
        !k.contains('.'),
        !is_ws(p[0]),
        !is_ws(k.last()),
        !rules.contains_key(p + seq!['.'] + k),
    ensures
        decision(rules, default, class_path_of(p + seq!['.'] + k + seq![':', ' '] + rest)) == (if rules.contains_key(k) {
            rules[k]
        } else {
            default
        }),
{
    let cp = p + seq!['.'] + k;
    assert(!cp.contains(':')) by {
        if cp.contains(':') {
            let j = choose|j: int| 0 <= j < cp.len() && cp[j] == ':';
            if j < p.len() {
                assert(p[j] == ':');
            } else if j > p.len() {
                assert(k[j - p.len() - 1] == ':');
            }
        }
    }
    assert(cp[0] == p[0]);
    assert(cp.last() == k.last());
    lemma_class_path_of_message(cp, rest);
    lemma_bare_name_after_last_dot(rules, default, p, k);
}

/// A string without a dot has no last dot.
proof fn lemma_no_dot(s: Seq<char>)
    requires
        !s.contains('.'),
    ensures
        last_dot(s) is None,
    decreases s.len(),
{
    if s.len() > 0 {
        assert(s.last() != '.') by {
            if s.last() == '.' {
                assert(s[s.len() - 1] == '.');
            }
        }
        assert(!s.drop_last().contains('.')) by {
            if s.drop_last().contains('.') {
                let j = choose|j: int| 0 <= j < s.drop_last().len() && s.drop_last()[j] == '.';
                assert(s[j] == '.');
            }
        }
        lemma_no_dot(s.drop_last());
    }
}

/// A rule for the whole class path wins over any other; a class path with
/// no dot and no rule of its own takes the default.
pub proof fn lemma_whole_path_rule_first(rules: Map<Seq<char>, Directive>, default: Directive, cp: Seq<char>)
    ensures
        rules.contains_key(cp) ==> decision(rules, default, cp) == rules[cp],
        !rules.contains_key(cp) && !cp.contains('.') ==> decision(rules, default, cp) == default,
{
    if !cp.contains('.') {
        lemma_no_dot(cp);
    }
}

} // verus!
