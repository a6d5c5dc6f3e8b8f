use vstd::prelude::*;
use crate::model::{Action, WrongAction};

verus! {

/// ASCII whitespace.
pub open spec fn is_space(b: u8) -> bool {
    b == 32 || (9 <= b && b <= 13)
}

/// The length of the whitespace character that starts at byte `i` of the
/// UTF-8 text `s`, or 0 where none does. Besides ASCII whitespace these are
/// U+0085, U+00A0, U+1680, U+2000 to U+200A, U+2028, U+2029, U+202F, U+205F
/// and U+3000.
pub open spec fn space_len(s: Seq<u8>, i: int) -> int {
    if is_space(s[i]) {
        1
    } else if i + 1 < s.len() && s[i] == 0xC2 && (s[i + 1] == 0x85 || s[i + 1] == 0xA0) {
        2
    } else if i + 2 < s.len() && (
        (s[i] == 0xE1 && s[i + 1] == 0x9A && s[i + 2] == 0x80)
        || (s[i] == 0xE2 && s[i + 1] == 0x80 && ((0x80 <= s[i + 2] && s[i + 2] <= 0x8A)
            || s[i + 2] == 0xA8 || s[i + 2] == 0xA9 || s[i + 2] == 0xAF))
        || (s[i] == 0xE2 && s[i + 1] == 0x81 && s[i + 2] == 0x9F)
        || (s[i] == 0xE3 && s[i + 1] == 0x80 && s[i + 2] == 0x80)) {
        3
    } else {
        0
    }
}

pub open spec fn close_word(acc: Seq<Seq<u8>>, s: Seq<u8>, start: int, i: int) -> Seq<Seq<u8>> {
    if start < i { acc.push(s.subrange(start, i)) } else { acc }
}

/// The words of `s` from position `i` on, where the current word began at
/// `start` and `acc` holds the words already complete.
pub open spec fn words_from(s: Seq<u8>, i: int, start: int, acc: Seq<Seq<u8>>) -> Seq<Seq<u8>>
    decreases s.len() - i,
{
    if i >= s.len() {
        close_word(acc, s, start, i)
    } else if space_len(s, i) > 0 {
        words_from(s, i + space_len(s, i), i + space_len(s, i), close_word(acc, s, start, i))
    } else {
        words_from(s, i + 1, start, acc)
    }
}

/// The maximal runs of bytes of `s` that whitespace does not split, in order.
pub open spec fn words(s: Seq<u8>) -> Seq<Seq<u8>> {
    words_from(s, 0, 0, Seq::empty())
}

pub open spec fn digits_value(w: Seq<u8>) -> int
    decreases w.len(),
{
    if w.len() == 0 {
        0
    } else {
        digits_value(w.drop_last()) * 10 + (w.last() - 48)
    }
}

pub open spec fn all_digits(w: Seq<u8>) -> bool {
    forall|i: int| 0 <= i < w.len() ==> 48 <= #[trigger] w[i] <= 57
}

pub open spec fn unsigned_digits(w: Seq<u8>) -> Seq<u8> {
    if w.len() > 0 && w[0] == 43 { w.drop_first() } else { w }
}

/// A handle written in decimal, with an optional leading `+`.
pub open spec fn number(w: Seq<u8>) -> Option<usize> {
    let d = unsigned_digits(w);
    if d.len() > 0 && all_digits(d) && digits_value(d) <= usize::MAX {
        Some(digits_value(d) as usize)
    } else {
        None
    }
}

pub open spec fn verb_attach() -> Seq<u8> { seq![97u8, 116, 116, 97, 99, 104] }
pub open spec fn verb_kill() -> Seq<u8> { seq![107u8, 105, 108, 108] }
pub open spec fn verb_elect() -> Seq<u8> { seq![101u8, 108, 101, 99, 116] }
pub open spec fn verb_vote() -> Seq<u8> { seq![118u8, 111, 116, 101] }
pub open spec fn verb_heal() -> Seq<u8> { seq![104u8, 101, 97, 108] }
pub open spec fn verb_poison() -> Seq<u8> { seq![112u8, 111, 105, 115, 111, 110] }

/// The action an inbound line stands for: a verb, a target handle and, for
/// `attach`, the lover's handle. Words after those are ignored.
pub open spec fn action_of(s: Seq<u8>) -> Option<Action> {
    let w = words(s);
    if w.len() < 2 || number(w[1]) is None {
        None
    } else {
        let t = number(w[1])->0;
        if w[0] == verb_attach() {
            if w.len() >= 3 && number(w[2]) is Some { Some(Action::Attach(t, number(w[2])->0)) } else { None }
        } else if w[0] == verb_kill() {
            Some(Action::Kill(t))
        } else if w[0] == verb_elect() {
            Some(Action::Elect(t))
        } else if w[0] == verb_vote() {
            Some(Action::Vote(t))
        } else if w[0] == verb_heal() {
            Some(Action::Heal(t))
        } else if w[0] == verb_poison() {
            Some(Action::Poison(t))
        } else {
            None
        }
    }
}

pub open spec fn span_words(s: Seq<u8>, sp: Seq<(usize, usize)>) -> Seq<Seq<u8>> {
    Seq::new(sp.len(), |k: int| s.subrange(sp[k].0 as int, sp[k].1 as int))
}

fn space_len_at(line: &[u8], i: usize) -> (r: usize)
    requires
        i < line@.len(),
    ensures
        r == space_len(line@, i as int),
{
    let n = line.len();
    let b = line[i];
    if b == 32 || (9 <= b && b <= 13) {
        1
    } else if i < n - 1 && b == 0xC2 && (line[i + 1] == 0x85 || line[i + 1] == 0xA0) {
        2
    } else if n >= 2 && i < n - 2 && (
        (b == 0xE1 && line[i + 1] == 0x9A && line[i + 2] == 0x80)
        || (b == 0xE2 && line[i + 1] == 0x80 && ((0x80 <= line[i + 2] && line[i + 2] <= 0x8A)
            || line[i + 2] == 0xA8 || line[i + 2] == 0xA9 || line[i + 2] == 0xAF))
        || (b == 0xE2 && line[i + 1] == 0x81 && line[i + 2] == 0x9F)
        || (b == 0xE3 && line[i + 1] == 0x80 && line[i + 2] == 0x80)) {
        3
    } else {
        0
    }
}

/// The start and end of each word of `line`.
fn word_spans(line: &[u8]) -> (r: Vec<(usize, usize)>)
    ensures
        forall|k: int| 0 <= k < r@.len() ==> (#[trigger] r@[k]).0 <= r@[k].1 <= line@.len(),
        span_words(line@, r@) == words(line@),
{
    let ghost s = line@;
    let n = line.len();
    let mut spans: Vec<(usize, usize)> = Vec::new();
    let mut start: usize = 0;
    let mut i: usize = 0;
    assert(span_words(s, spans@) =~= Seq::<Seq<u8>>::empty());
    while i < n
        invariant
            n == s.len(),
            s == line@,
            start <= i <= n,
            forall|k: int| 0 <= k < spans@.len() ==> (#[trigger] spans@[k]).0 <= spans@[k].1 <= n,
            words_from(s, i as int, start as int, span_words(s, spans@)) == words(s),
        decreases n - i,
    {
        let sl = space_len_at(line, i);
        if sl > 0 {
            if start < i {
                let ghost before = spans@;
                spans.push((start, i));
                assert(span_words(s, spans@) =~= span_words(s, before).push(s.subrange(start as int, i as int)));
            }
            i = i + sl;
            start = i;
        } else {
            i = i + 1;
        }
    }
    if start < n {
        let ghost before = spans@;
        spans.push((start, n));
        assert(span_words(s, spans@) =~= span_words(s, before).push(s.subrange(start as int, n as int)));
    }
    spans
}

proof fn lemma_digits_grow(w: Seq<u8>, k: int)
    requires
        0 <= k <= w.len(),
        all_digits(w),
    ensures
        digits_value(w.subrange(0, k)) <= digits_value(w),
        0 <= digits_value(w.subrange(0, k)),
    decreases w.len(),
{
    if w.len() > 0 {
        if k == w.len() {
            assert(w.subrange(0, k) =~= w);
            lemma_digits_grow(w.drop_last(), 0);
            assert(w.subrange(0, 0) =~= w.drop_last().subrange(0, 0));
        } else {
            lemma_digits_grow(w.drop_last(), k);
            assert(w.subrange(0, k) =~= w.drop_last().subrange(0, k));
            lemma_digits_grow(w.drop_last(), w.drop_last().len() as int);
            assert(w.drop_last().subrange(0, w.drop_last().len() as int) =~= w.drop_last());
        }
    }
}

/// Reads the word `line[a..b]` as a handle.
fn read_number(line: &[u8], a: usize, b: usize) -> (r: Option<usize>)
    requires
        a <= b <= line@.len(),
    ensures
        r == number(line@.subrange(a as int, b as int)),
{
    let ghost w = line@.subrange(a as int, b as int);
    let mut i = a;
    if i < b && line[i] == 43 {
        i = i + 1;
    }
    let ghost d = line@.subrange(i as int, b as int);
    assert(d =~= unsigned_digits(w));
    if i == b {
        return None;
    }
    let first = i;
    let mut val: u128 = 0;
    while i < b
        invariant
            first <= i <= b <= line@.len(),
            d == line@.subrange(first as int, b as int),
            d == unsigned_digits(w),
            w == line@.subrange(a as int, b as int),
            a <= b,
            all_digits(line@.subrange(first as int, i as int)),
            val == digits_value(line@.subrange(first as int, i as int)),
            val <= usize::MAX,
        decreases b - i,
    {
        let c = line[i];
        if c < 48 || c > 57 {
            assert(d[i - first] == c);
            assert(!all_digits(d));
            return None;
        }
        let ghost p = line@.subrange(first as int, i + 1);
        assert(p.drop_last() =~= line@.subrange(first as int, i as int));
        assert(p.last() == c);
        val = val * 10 + (c - 48) as u128;
        assert(val == digits_value(p));
        if val > usize::MAX as u128 {
            proof {
                if all_digits(d) {
                    assert(d.subrange(0, i + 1 - first) =~= p);
                    lemma_digits_grow(d, i + 1 - first);
                }
            }
            return None;
        }
        i = i + 1;
    }
    assert(line@.subrange(first as int, b as int) =~= d);
    Some(val as usize)
}

fn word_is(line: &[u8], a: usize, b: usize, lit: &Vec<u8>) -> (r: bool)
    requires
        a <= b <= line@.len(),
    ensures
        r == (line@.subrange(a as int, b as int) == lit@),
{
    if b - a != lit.len() {
        return false;
    }
    let mut i: usize = 0;
    while i < lit.len()
        invariant
            b - a == lit@.len(),
            a <= b <= line@.len(),
            forall|j: int| 0 <= j < i ==> line@[a + j] == lit@[j],
        decreases lit@.len() - i,
    {
        if line[a + i] != lit[i] {
            assert(line@.subrange(a as int, b as int)[i as int] != lit@[i as int]);
            return false;
        }
        i = i + 1;
    }
    assert(line@.subrange(a as int, b as int) =~= lit@);
    true
}

/// Decodes one inbound line into an action.
pub fn decode_action(line: &[u8]) -> (r: Result<Action, WrongAction>)
    ensures
        r matches Ok(a) ==> action_of(line@) == Some(a),
        r is Err ==> action_of(line@) is None,
{
    let spans = word_spans(line);
    proof {
        assert forall|k: int| 0 <= k < spans@.len() implies
            words(line@)[k] == line@.subrange(spans@[k].0 as int, spans@[k].1 as int) by {
            assert(span_words(line@, spans@)[k] == line@.subrange(spans@[k].0 as int, spans@[k].1 as int));
        }
    }
    if spans.len() < 2 {
        return Err(WrongAction);
    }
    let (va, vb) = spans[0];
    let (ta, tb) = spans[1];
    let target = match read_number(line, ta, tb) {
        Some(t) => t,
        None => return Err(WrongAction),
    };
    let attach: Vec<u8> = vec![97u8, 116, 116, 97, 99, 104];
    let kill: Vec<u8> = vec![107u8, 105, 108, 108];
    let elect: Vec<u8> = vec![101u8, 108, 101, 99, 116];
    let vote: Vec<u8> = vec![118u8, 111, 116, 101];
    let heal: Vec<u8> = vec![104u8, 101, 97, 108];
    let poison: Vec<u8> = vec![112u8, 111, 105, 115, 111, 110];
    assert(attach@ =~= verb_attach());
    assert(kill@ =~= verb_kill());
    assert(elect@ =~= verb_elect());
    assert(vote@ =~= verb_vote());
    assert(heal@ =~= verb_heal());
    assert(poison@ =~= verb_poison());
    if word_is(line, va, vb, &attach) {
        if spans.len() < 3 {
            return Err(WrongAction);
        }
        let (la, lb) = spans[2];
        match read_number(line, la, lb) {
            Some(l) => Ok(Action::Attach(target, l)),
            None => Err(WrongAction),
        }
    } else if word_is(line, va, vb, &kill) {
        Ok(Action::Kill(target))
    } else if word_is(line, va, vb, &elect) {
        Ok(Action::Elect(target))
    } else if word_is(line, va, vb, &vote) {
        Ok(Action::Vote(target))
    } else if word_is(line, va, vb, &heal) {
        Ok(Action::Heal(target))
    } else if word_is(line, va, vb, &poison) {
        Ok(Action::Poison(target))
    } else {
        Err(WrongAction)
    }
}

/// Values that decode into an action.
pub trait IntoAction: Sized {
    fn into_action(self) -> Result<Action, WrongAction>;
}

impl<'a> IntoAction for &'a [u8] {
    fn into_action(self) -> (r: Result<Action, WrongAction>)
        ensures
            r matches Ok(a) ==> action_of(self@) == Some(a),
            r is Err ==> action_of(self@) is None,
    {
        decode_action(self)
    }
}

} // verus!
