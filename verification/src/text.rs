use vstd::prelude::*;

verus! {

broadcast use vstd::string::group_string_axioms;

/// Whether `c` carries the Unicode `White_Space` property.
pub open spec fn is_space(c: char) -> bool {
    let n = c as u32;
    ||| 0x09 <= n <= 0x0D
    ||| n == 0x20
    ||| n == 0x85
    ||| n == 0xA0
    ||| n == 0x1680
    ||| 0x2000 <= n <= 0x200A
    ||| n == 0x2028
    ||| n == 0x2029
    ||| n == 0x202F
    ||| n == 0x205F
    ||| n == 0x3000
}

/// The maximal runs of non-whitespace characters of `s`, in order.
///
/// Read from the left: a whitespace character adds nothing, a character that
/// follows a non-whitespace character lengthens the last word, and any other
/// character starts a new word.
pub open spec fn words(s: Seq<char>) -> Seq<Seq<char>>
    decreases s.len(),
{
    if s.len() == 0 {
        Seq::empty()
    } else {
        let before = words(s.drop_last());
        let c = s.last();
        if is_space(c) {
            before
        } else if s.len() >= 2 && !is_space(s[s.len() - 2]) {
            before.drop_last().push(before.last().push(c))
        } else {
            before.push(seq![c])
        }
    }
}

/// The words of `ws` written one after another with a single space between
/// neighbours.
pub open spec fn join_words(ws: Seq<Seq<char>>) -> Seq<char>
    decreases ws.len(),
{
    if ws.len() == 0 {
        Seq::empty()
    } else if ws.len() == 1 {
        ws[0]
    } else {
        join_words(ws.drop_last()) + seq![' '] + ws.last()
    }
}

/// The character sequences that a sequence of strings stands for.
pub open spec fn string_views(v: Seq<String>) -> Seq<Seq<char>> {
    Seq::new(v.len(), |i: int| v[i]@)
}

/// A word is a non-empty run without whitespace.
pub open spec fn is_word(w: Seq<char>) -> bool {
    w.len() > 0 && forall|i: int| 0 <= i < w.len() ==> !is_space(#[trigger] w[i])
}

/// `s` without its leading and trailing whitespace.
pub open spec fn trimmed(s: Seq<char>) -> Seq<char>
    decreases s.len(),
{
    if s.len() == 0 {
        s
    } else if is_space(s.last()) {
        trimmed(s.drop_last())
    } else if is_space(s[0]) {
        trimmed(s.drop_first())
    } else {
        s
    }
}

/// Every entry of `words(s)` is a word, and the last one ends where `s` ends
/// exactly when `s` ends in a non-whitespace character.
pub proof fn lemma_words_are_words(s: Seq<char>)
    ensures
        forall|i: int| 0 <= i < words(s).len() ==> is_word(#[trigger] words(s)[i]),
        s.len() > 0 && !is_space(s.last()) ==> words(s).len() > 0,
    decreases s.len(),
{
    if s.len() > 0 {
        let p = s.drop_last();
        lemma_words_are_words(p);
        let before = words(p);
        let c = s.last();
        if is_space(c) {
        } else if s.len() >= 2 && !is_space(s[s.len() - 2]) {
            assert(p.last() == s[s.len() - 2]);
            let grown = before.last().push(c);
            assert(is_word(before.last()));
            assert forall|i: int| 0 <= i < grown.len() implies !is_space(#[trigger] grown[i]) by {
                if i < before.last().len() {
                    assert(grown[i] == before.last()[i]);
                }
            }
            assert(is_word(grown));
            assert forall|i: int| 0 <= i < words(s).len() implies is_word(
                #[trigger] words(s)[i],
            ) by {
                if i < before.len() - 1 {
                    assert(words(s)[i] == before[i]);
                }
            }
        } else {
            assert(is_word(seq![c]));
            assert forall|i: int| 0 <= i < words(s).len() implies is_word(
                #[trigger] words(s)[i],
            ) by {
                if i < before.len() {
                    assert(words(s)[i] == before[i]);
                }
            }
        }
    }
}

/// A word that follows a space adds itself to the words before it.
pub proof fn lemma_words_after_space(s: Seq<char>, w: Seq<char>)
    requires
        is_word(w),
    ensures
        words(s + seq![' '] + w) == words(s).push(w),
    decreases w.len(),
{
    let all = s + seq![' '] + w;
    let c = w.last();
    let shorter = w.drop_last();
    assert(all.last() == c);
    assert(!is_space(w[w.len() - 1]));
    assert(all.drop_last() =~= s + seq![' '] + shorter);
    if shorter.len() == 0 {
        let lead = s + seq![' '];
        assert(all.drop_last() =~= lead);
        assert(lead.last() == ' ');
        assert(is_space(' '));
        assert(lead.drop_last() =~= s);
        assert(words(lead) == words(s));
        assert(all[all.len() - 2] == ' ');
        assert(w =~= seq![c]);
    } else {
        assert forall|i: int| 0 <= i < shorter.len() implies !is_space(#[trigger] shorter[i]) by {
            assert(shorter[i] == w[i]);
        }
        lemma_words_after_space(s, shorter);
        assert(all[all.len() - 2] == shorter.last());
        assert(shorter.last() == w[w.len() - 2]);
        assert(!is_space(w[w.len() - 2]));
        let before = words(s).push(shorter);
        assert(before.drop_last() =~= words(s));
        assert(before.last().push(c) =~= w);
    }
}

/// A word alone is its own only word.
pub proof fn lemma_words_of_word(w: Seq<char>)
    requires
        is_word(w),
    ensures
        words(w) == seq![w],
    decreases w.len(),
{
    let c = w.last();
    let shorter = w.drop_last();
    assert(!is_space(w[w.len() - 1]));
    if shorter.len() == 0 {
        assert(words(shorter) =~= Seq::<Seq<char>>::empty());
        assert(w =~= seq![c]);
        assert(words(w) =~= seq![w]);
    } else {
        assert forall|i: int| 0 <= i < shorter.len() implies !is_space(#[trigger] shorter[i]) by {
            assert(shorter[i] == w[i]);
        }
        lemma_words_of_word(shorter);
        assert(!is_space(w[w.len() - 2]));
        let before = seq![shorter];
        assert(before.drop_last() =~= Seq::<Seq<char>>::empty());
        assert(before.last().push(c) =~= w);
        assert(words(w) =~= seq![w]);
    }
}

/// Splitting undoes joining: the words of a text made by joining words with
/// single spaces are those words.
pub proof fn lemma_words_of_joined(ws: Seq<Seq<char>>)
    requires
        forall|i: int| 0 <= i < ws.len() ==> is_word(#[trigger] ws[i]),
    ensures
        words(join_words(ws)) == ws,
    decreases ws.len(),
{
    if ws.len() == 0 {
        assert(words(join_words(ws)) =~= ws);
    } else if ws.len() == 1 {
        lemma_words_of_word(ws[0]);
        assert(seq![ws[0]] =~= ws);
    } else {
        let front = ws.drop_last();
        assert forall|i: int| 0 <= i < front.len() implies is_word(#[trigger] front[i]) by {
            assert(front[i] == ws[i]);
        }
        lemma_words_of_joined(front);
        lemma_words_after_space(join_words(front), ws.last());
        assert(front.push(ws.last()) =~= ws);
    }
}

/// Tells whether `c` is Unicode whitespace.
pub fn is_whitespace(c: char) -> (b: bool)
    ensures
        b == is_space(c),
{
    let n: u32 = c as u32;
    (0x09 <= n && n <= 0x0D) || n == 0x20 || n == 0x85 || n == 0xA0 || n == 0x1680 || (0x2000 <= n
        && n <= 0x200A) || n == 0x2028 || n == 0x2029 || n == 0x202F || n == 0x205F || n == 0x3000
}

/// `String::push` appends one character.
pub assume_specification[ String::push ](s: &mut String, c: char)
    ensures
        final(s)@ == old(s)@.push(c),
;

/// The words that a sequence under construction stands for: the finished
/// words, and the pending one where it has a character.
spec fn with_pending(done: Seq<Seq<char>>, pending: Seq<char>) -> Seq<Seq<char>> {
    if pending.len() > 0 {
        done.push(pending)
    } else {
        done
    }
}

/// Splits `text` at Unicode whitespace into its words.
pub fn split_words(text: &str) -> (ws: Vec<String>)
    ensures
        string_views(ws@) == words(text@),
{
    let mut ws: Vec<String> = Vec::new();
    let mut cur = String::new();
    assert(string_views(ws@) =~= Seq::<Seq<char>>::empty());
    assert(text@.take(0) =~= Seq::<char>::empty());
    for c in it: text.chars()
        invariant
            it.seq() == text@,
            with_pending(string_views(ws@), cur@) == words(text@.take(it.index() as int)),
            cur@.len() > 0 <==> (it.index() > 0 && !is_space(text@[it.index() - 1])),
    {
        let ghost idx = it.index() as int;
        let ghost prefix = text@.take(idx + 1);
        let ghost done = string_views(ws@);
        let ghost pending = cur@;
        proof {
            assert(prefix.drop_last() =~= text@.take(idx));
            assert(prefix.last() == c);
            if idx > 0 {
                assert(prefix[prefix.len() - 2] == text@[idx - 1]);
            }
        }
        if is_whitespace(c) {
            if !cur.as_str().is_empty() {
                ws.push(cur);
                cur = String::new();
                assert(string_views(ws@) =~= done.push(pending));
            }
            assert(with_pending(string_views(ws@), cur@) == words(prefix));
        } else {
            cur.push(c);
            proof {
                assert(words(prefix.drop_last()) == with_pending(done, pending));
                if pending.len() > 0 {
                    let before = done.push(pending);
                    assert(before.drop_last() =~= done);
                    assert(before.last() == pending);
                    assert(words(prefix) == done.push(pending.push(c)));
                } else {
                    assert(words(prefix) == done.push(seq![c]));
                    assert(cur@ =~= seq![c]);
                }
                assert(with_pending(string_views(ws@), cur@) == words(prefix));
            }
        }
    }
    assert(text@.take(text@.len() as int) =~= text@);
    if !cur.as_str().is_empty() {
        let ghost done = string_views(ws@);
        let ghost pending = cur@;
        ws.push(cur);
        assert(string_views(ws@) =~= done.push(pending));
    }
    ws
}

/// Joins the words `ws[from..to]` with single spaces.
pub fn join_range(ws: &Vec<String>, from: usize, to: usize) -> (s: String)
    requires
        from <= to <= ws.len(),
    ensures
        s@ == join_words(string_views(ws@).subrange(from as int, to as int)),
{
    let mut s = String::new();
    let mut j: usize = from;
    let ghost all = string_views(ws@);
    assert(all.subrange(from as int, from as int) =~= Seq::<Seq<char>>::empty());
    while j < to
        invariant
            from <= j <= to <= ws.len(),
            all == string_views(ws@),
            s@ == join_words(all.subrange(from as int, j as int)),
        decreases to - j,
    {
        let ghost next = all.subrange(from as int, j + 1);
        proof {
            assert(next.drop_last() =~= all.subrange(from as int, j as int));
            assert(next.last() == ws@[j as int]@);
        }
        if j > from {
            s.push(' ');
            assert(s@ =~= join_words(next.drop_last()) + seq![' ']);
        }
        s.append(ws[j].as_str());
        j = j + 1;
    }
    s
}

/// Trimming drops trailing whitespace first and leading whitespace after:
/// what is left starts at the first non-whitespace character.
pub proof fn lemma_trimmed_is_subrange(s: Seq<char>, lo: int, hi: int)
    requires
        0 <= lo <= hi <= s.len(),
        forall|i: int| 0 <= i < lo ==> is_space(#[trigger] s[i]),
        forall|i: int| hi <= i < s.len() ==> is_space(#[trigger] s[i]),
        lo < hi ==> !is_space(s[lo]) && !is_space(s[hi - 1]),
        lo == hi ==> lo == s.len() || hi == 0 || lo == 0,
    ensures
        trimmed(s) == s.subrange(lo, hi),
    decreases s.len(),
{
    if s.len() == 0 {
        assert(s.subrange(lo, hi) =~= s);
    } else if is_space(s.last()) {
        let p = s.drop_last();
        if hi == s.len() {
            // no character stays: everything is whitespace
            assert(lo == hi);
            assert forall|i: int| 0 <= i < p.len() implies is_space(#[trigger] p[i]) by {
                assert(p[i] == s[i]);
            }
            lemma_trimmed_is_subrange(p, p.len() as int, p.len() as int);
            assert(p.subrange(p.len() as int, p.len() as int) =~= s.subrange(lo, hi));
        } else {
            assert forall|i: int| 0 <= i < lo implies is_space(#[trigger] p[i]) by {
                assert(p[i] == s[i]);
            }
            assert forall|i: int| hi <= i < p.len() implies is_space(#[trigger] p[i]) by {
                assert(p[i] == s[i]);
            }
            if lo < hi {
                assert(p[lo] == s[lo]);
                assert(p[hi - 1] == s[hi - 1]);
                lemma_trimmed_is_subrange(p, lo, hi);
                assert(p.subrange(lo, hi) =~= s.subrange(lo, hi));
            } else {
                // all of `s` is whitespace
                assert forall|i: int| 0 <= i < p.len() implies is_space(#[trigger] p[i]) by {
                    assert(p[i] == s[i]);
                    if lo == 0 {
                        assert(hi <= i);
                    }
                }
                lemma_trimmed_is_subrange(p, p.len() as int, p.len() as int);
                assert(p.subrange(p.len() as int, p.len() as int) =~= s.subrange(lo, hi));
            }
        }
    } else if is_space(s[0]) {
        let t = s.drop_first();
        assert(hi == s.len());
        assert(lo >= 1);
        assert forall|i: int| 0 <= i < lo - 1 implies is_space(#[trigger] t[i]) by {
            assert(t[i] == s[i + 1]);
        }
        assert(t[lo - 1] == s[lo]);
        assert(t[hi - 2] == s[hi - 1]);
        lemma_trimmed_is_subrange(t, lo - 1, hi - 1);
        assert(t.subrange(lo - 1, hi - 1) =~= s.subrange(lo, hi));
    } else {
        assert(lo == 0 && hi == s.len());
        assert(s.subrange(lo, hi) =~= s);
    }
}

/// The characters of `text`, one by one.
pub fn chars_of(text: &str) -> (cs: Vec<char>)
    ensures
        cs@ == text@,
{
    let mut cs: Vec<char> = Vec::new();
    for c in it: text.chars()
        invariant
            it.seq() == text@,
            cs@ == text@.take(it.index() as int),
    {
        cs.push(c);
        assert(cs@ =~= text@.take(it.index() + 1));
    }
    assert(text@.take(text@.len() as int) =~= text@);
    cs
}

/// `text` without its leading and trailing whitespace.
pub fn trim(text: &str) -> (s: String)
    ensures
        s@ == trimmed(text@),
{
    let cs = chars_of(text);
    let n: usize = cs.len();
    let mut hi: usize = n;
    while hi > 0 && is_whitespace(cs[hi - 1])
        invariant
            hi <= n,
            n == cs.len(),
            forall|i: int| hi <= i < n ==> is_space(#[trigger] cs@[i]),
        decreases hi,
    {
        hi = hi - 1;
    }
    let mut lo: usize = 0;
    while lo < hi && is_whitespace(cs[lo])
        invariant
            lo <= hi <= n,
            n == cs.len(),
            forall|i: int| 0 <= i < lo ==> is_space(#[trigger] cs@[i]),
        decreases hi - lo,
    {
        lo = lo + 1;
    }
    let mut s = String::new();
    let mut j: usize = lo;
    assert(cs@.subrange(lo as int, lo as int) =~= Seq::<char>::empty());
    while j < hi
        invariant
            lo <= j <= hi <= n,
            n == cs.len(),
            s@ == cs@.subrange(lo as int, j as int),
        decreases hi - j,
    {
        s.push(cs[j]);
        assert(s@ =~= cs@.subrange(lo as int, j + 1));
        j = j + 1;
    }
    proof {
        lemma_trimmed_is_subrange(cs@, lo as int, hi as int);
    }
    s
}

/// The ten decimal digits, by value.
pub open spec fn decimal_digits() -> Seq<char> {
    seq!['0', '1', '2', '3', '4', '5', '6', '7', '8', '9']
}

/// A natural number in decimal notation, without leading zeros.
pub open spec fn decimal(n: nat) -> Seq<char>
    decreases n,
{
    if n < 10 {
        seq![decimal_digits()[n as int]]
    } else {
        decimal(n / 10).push(decimal_digits()[(n % 10) as int])
    }
}

/// An integer in decimal notation, with a minus sign where it is negative.
pub open spec fn integer_text(i: int) -> Seq<char> {
    if i < 0 {
        seq!['-'] + decimal((-i) as nat)
    } else {
        decimal(i as nat)
    }
}

/// The character of a decimal digit.
fn digit_char(d: u64) -> (c: char)
    requires
        d < 10,
    ensures
        c == decimal_digits()[d as int],
{
    if d == 0 {
        '0'
    } else if d == 1 {
        '1'
    } else if d == 2 {
        '2'
    } else if d == 3 {
        '3'
    } else if d == 4 {
        '4'
    } else if d == 5 {
        '5'
    } else if d == 6 {
        '6'
    } else if d == 7 {
        '7'
    } else if d == 8 {
        '8'
    } else {
        '9'
    }
}

/// Writes an integer in decimal notation.
pub fn render_integer(i: i64) -> (s: String)
    ensures
        s@ == integer_text(i as int),
{
    let magnitude: u64 = if i < 0 {
        ((-(i + 1)) as u64) + 1
    } else {
        i as u64
    };
    // the digits, the last one first
    let mut digits: Vec<char> = Vec::new();
    let mut rest: u64 = magnitude;
    let ghost mut tail: Seq<char> = Seq::empty();
    loop
        invariant_except_break
            digits.len() == 0 ==> rest == magnitude,
            digits.len() > 0 ==> rest > 0 && decimal(magnitude as nat) == decimal(rest as nat)
                + tail,
        invariant
            tail.len() == digits.len(),
            forall|j: int| 0 <= j < digits.len() ==> digits@[j] == tail[tail.len() - 1 - j],
        ensures
            decimal(magnitude as nat) == tail,
        decreases
                if digits.len() == 0 {
                    rest + 1
                } else {
                    rest as int
                },
    {
        let d: u64 = rest % 10;
        let c = digit_char(d);
        let ghost old_tail = tail;
        let ghost old_digits = digits@;
        let ghost old_rest = rest;
        digits.push(c);
        rest = rest / 10;
        proof {
            tail = seq![c] + old_tail;
            assert forall|j: int| 0 <= j < digits.len() implies digits@[j] == tail[tail.len() - 1
                - j] by {
                if j < old_digits.len() {
                    assert(digits@[j] == old_digits[j]);
                    assert(tail[tail.len() - 1 - j] == old_tail[old_tail.len() - 1 - j]);
                }
            }
            assert(c == decimal_digits()[(old_rest as nat % 10) as int]);
            if old_rest < 10 {
                assert(decimal(old_rest as nat) =~= seq![c]);
            } else {
                assert((old_rest as nat) / 10 == rest as nat);
                assert(decimal(old_rest as nat) =~= decimal(rest as nat).push(c));
            }
            if old_digits.len() == 0 {
                assert(old_tail =~= Seq::<char>::empty());
                assert(old_rest == magnitude);
                if old_rest < 10 {
                    assert(tail =~= decimal(old_rest as nat));
                } else {
                    assert(decimal(old_rest as nat) =~= decimal(rest as nat) + tail);
                }
            } else {
                assert(old_rest > 0);
                assert(decimal(magnitude as nat) == decimal(old_rest as nat) + old_tail);
                if old_rest < 10 {
                    assert(decimal(old_rest as nat) + old_tail =~= tail);
                } else {
                    assert(decimal(old_rest as nat) + old_tail =~= decimal(rest as nat) + tail);
                }
            }
        }
        if rest == 0 {
            break ;
        }
    }
    let mut s = String::new();
    if i < 0 {
        s.push('-');
    }
    let ghost sign = s@;
    let mut left: usize = digits.len();
    assert(tail.take(0) =~= Seq::<char>::empty());
    assert(sign + tail.take(0) =~= sign);
    while left > 0
        invariant
            left <= digits.len(),
            tail.len() == digits.len(),
            forall|j: int| 0 <= j < digits.len() ==> digits@[j] == tail[tail.len() - 1 - j],
            s@ == sign + tail.take(digits.len() - left),
        decreases left,
    {
        left = left - 1;
        s.push(digits[left]);
        assert(s@ =~= sign + tail.take(digits.len() - left));
    }
    assert(tail.take(tail.len() as int) =~= tail);
    assert(sign =~= if i < 0 {
        seq!['-']
    } else {
        Seq::<char>::empty()
    });
    assert(Seq::<char>::empty() + tail =~= tail);
    s
}

} // verus!
