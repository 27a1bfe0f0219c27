//! Text as a sequence of characters: searching, cutting and trimming.
use vstd::prelude::*;

verus! {

/// `String::push`, which puts one character behind the text.
pub assume_specification[ String::push ](s: &mut String, ch: char)
    ensures
        final(s)@ == old(s)@.push(ch),
;

/// The characters of `s`, in order.
pub fn chars_of(s: &str) -> (res: Vec<char>)
    ensures
        res@ == s@,
{
    let mut res: Vec<char> = Vec::new();
    for c in it: s.chars()
        invariant
            res@ == it.seq().take(it.index()),
            it.seq() == s@,
    {
        res.push(c);
    }
    res
}

/// The text made of the characters `from..to` of `cs`.
pub fn text_of(cs: &Vec<char>, from: usize, to: usize) -> (res: String)
    requires
        from <= to <= cs@.len(),
    ensures
        res@ == cs@.subrange(from as int, to as int),
{
    let mut res = String::new();
    let mut i: usize = from;
    while i < to
        invariant
            from <= i <= to <= cs@.len(),
            res@ == cs@.subrange(from as int, i as int),
        decreases to - i,
    {
        res.push(cs[i]);
        i += 1;
    }
    res
}

/// `p` stands in `s` at position `i`.
pub open spec fn occurs_at(s: Seq<char>, i: int, p: Seq<char>) -> bool {
    &&& 0 <= i
    &&& i + p.len() <= s.len()
    &&& s.subrange(i, i + p.len()) == p
}

/// `s` begins with `p`.
pub open spec fn starts_with(s: Seq<char>, p: Seq<char>) -> bool {
    occurs_at(s, 0, p)
}

/// `p` stands somewhere in `s`.
pub open spec fn holds(s: Seq<char>, p: Seq<char>) -> bool {
    exists|i: int| #[trigger] occurs_at(s, i, p)
}

/// What is left of `s` behind the prefix `p`, if `s` begins with it.
pub open spec fn without_prefix(s: Seq<char>, p: Seq<char>) -> Option<Seq<char>> {
    if starts_with(s, p) {
        Some(s.skip(p.len() as int))
    } else {
        None
    }
}

/// `s` without the occurrences of `p`, taken from the left and not overlapping.
pub open spec fn remove_all(s: Seq<char>, p: Seq<char>) -> Seq<char>
    decreases s.len(),
{
    if s.len() == 0 || p.len() == 0 {
        s
    } else if starts_with(s, p) {
        remove_all(s.skip(p.len() as int), p)
    } else {
        seq![s[0]] + remove_all(s.skip(1), p)
    }
}

/// `s` with every `from` turned into `to`.
pub open spec fn replace_char(s: Seq<char>, from: char, to: char) -> Seq<char> {
    Seq::new(s.len(), |i: int| if s[i] == from { to } else { s[i] })
}

/// How many characters stand in front of the first `c` of `s`; all of them where there is none.
pub open spec fn first_index(s: Seq<char>, c: char) -> int
    decreases s.len(),
{
    if s.len() == 0 || s[0] == c {
        0
    } else {
        1 + first_index(s.skip(1), c)
    }
}

/// The characters with the Unicode property `White_Space`.
pub open spec fn is_space(c: char) -> bool {
    let n = c as u32;
    ||| 0x09 <= n <= 0x0d
    ||| n == 0x20
    ||| n == 0x85
    ||| n == 0xa0
    ||| n == 0x1680
    ||| 0x2000 <= n <= 0x200a
    ||| n == 0x2028
    ||| n == 0x2029
    ||| n == 0x202f
    ||| n == 0x205f
    ||| n == 0x3000
}

/// `s` without the white space in front.
pub open spec fn trim_start(s: Seq<char>) -> Seq<char>
    decreases s.len(),
{
    if s.len() > 0 && is_space(s[0]) {
        trim_start(s.skip(1))
    } else {
        s
    }
}

/// `s` without the white space behind.
pub open spec fn trim_end(s: Seq<char>) -> Seq<char>
    decreases s.len(),
{
    if s.len() > 0 && is_space(s.last()) {
        trim_end(s.drop_last())
    } else {
        s
    }
}

/// `s` without the white space around it.
pub open spec fn trimmed(s: Seq<char>) -> Seq<char> {
    trim_end(trim_start(s))
}

/// The longest beginning of `s` without white space.
pub open spec fn first_word(s: Seq<char>) -> Seq<char>
    decreases s.len(),
{
    if s.len() == 0 || is_space(s[0]) {
        Seq::empty()
    } else {
        seq![s[0]] + first_word(s.skip(1))
    }
}

/// The second of the words that white space separates in `s`.
pub open spec fn second_word(s: Seq<char>) -> Option<Seq<char>> {
    let tail = trim_start(s);
    let tail2 = trim_start(tail.skip(first_word(tail).len() as int));
    if tail2.len() == 0 {
        None
    } else {
        Some(first_word(tail2))
    }
}

fn space(c: char) -> (res: bool)
    ensures
        res == is_space(c),
{
    let n: u32 = c as u32;
    (0x09 <= n && n <= 0x0d) || n == 0x20 || n == 0x85 || n == 0xa0 || n == 0x1680 || (0x2000 <= n
        && n <= 0x200a) || n == 0x2028 || n == 0x2029 || n == 0x202f || n == 0x205f || n == 0x3000
}

fn matches_at(cs: &Vec<char>, at: usize, p: &Vec<char>) -> (res: bool)
    requires
        at <= cs@.len(),
    ensures
        res == occurs_at(cs@, at as int, p@),
{
    if cs.len() - at < p.len() {
        return false;
    }
    let mut k: usize = 0;
    while k < p.len()
        invariant
            at + p@.len() <= cs.len(),
            k <= p@.len(),
            forall|j: int| 0 <= j < k ==> cs@[at + j] == #[trigger] p@[j],
        decreases p@.len() - k,
    {
        if cs[at + k] != p[k] {
            assert(cs@.subrange(at as int, at + p@.len())[k as int] != p@[k as int]);
            return false;
        }
        k += 1;
    }
    assert(cs@.subrange(at as int, at + p@.len()) =~= p@);
    true
}

/// Whether two texts are the same.
pub fn same_text(a: &str, b: &str) -> (res: bool)
    ensures
        res == (a@ == b@),
{
    let ca = chars_of(a);
    let cb = chars_of(b);
    if ca.len() != cb.len() {
        return false;
    }
    let res = matches_at(&ca, 0, &cb);
    assert(ca@.subrange(0, cb@.len() as int) =~= ca@);
    res
}

/// Cuts `p` off the front of `s`.
pub fn strip_prefix(s: &str, p: &str) -> (res: Option<String>)
    ensures
        res.deep_view() == without_prefix(s@, p@),
{
    let cs = chars_of(s);
    let cp = chars_of(p);
    if matches_at(&cs, 0, &cp) {
        let out = text_of(&cs, cp.len(), cs.len());
        assert(out@ =~= s@.skip(p@.len() as int));
        Some(out)
    } else {
        None
    }
}

/// Whether `p` stands somewhere in `s`.
pub fn contains(s: &str, p: &str) -> (res: bool)
    ensures
        res == holds(s@, p@),
{
    let cs = chars_of(s);
    let cp = chars_of(p);
    let mut i: usize = 0;
    loop
        invariant
            cs@ == s@,
            cp@ == p@,
            i <= cs@.len(),
            forall|j: int| 0 <= j < i ==> !occurs_at(s@, j, p@),
        decreases cs@.len() - i,
    {
        if matches_at(&cs, i, &cp) {
            return true;
        }
        if i == cs.len() {
            return false;
        }
        i += 1;
    }
}

/// Takes every occurrence of `p` out of `s`.
pub fn remove(s: &str, p: &str) -> (res: String)
    ensures
        res@ == remove_all(s@, p@),
{
    let cs = chars_of(s);
    let cp = chars_of(p);
    if cp.len() == 0 {
        return s.to_owned();
    }
    let mut out = String::new();
    let mut i: usize = 0;
    assert(s@.skip(0) =~= s@);
    while i < cs.len()
        invariant
            cs@ == s@,
            cp@ == p@,
            cp@.len() > 0,
            i <= cs@.len(),
            remove_all(s@, p@) == out@ + remove_all(s@.skip(i as int), p@),
        decreases cs@.len() - i,
    {
        proof {
            let tail = s@.skip(i as int);
            assert(occurs_at(s@, i as int, p@) == starts_with(tail, p@)) by {
                if i + p@.len() <= s@.len() {
                    assert(s@.subrange(i as int, i + p@.len()) =~= tail.subrange(
                        0,
                        p@.len() as int,
                    ));
                }
            }
            assert(tail.skip(1) =~= s@.skip(i + 1));
            if i + p@.len() <= s@.len() {
                assert(tail.skip(p@.len() as int) =~= s@.skip(i + p@.len()));
            }
        }
        if matches_at(&cs, i, &cp) {
            i += cp.len();
        } else {
            let ghost before = out@;
            out.push(cs[i]);
            assert(out@ =~= before + seq![s@[i as int]]);
            i += 1;
        }
        proof {
            assert(out@ + remove_all(s@.skip(i as int), p@) =~= remove_all(s@, p@));
        }
    }
    proof {
        assert(s@.skip(i as int) =~= Seq::<char>::empty());
        assert(out@ + Seq::<char>::empty() =~= out@);
    }
    out
}

/// Turns every `from` of `s` into `to`.
pub fn replace(s: &str, from: char, to: char) -> (res: String)
    ensures
        res@ == replace_char(s@, from, to),
{
    let cs = chars_of(s);
    let mut out = String::new();
    let mut i: usize = 0;
    while i < cs.len()
        invariant
            cs@ == s@,
            i <= cs@.len(),
            out@ == replace_char(s@, from, to).take(i as int),
        decreases cs@.len() - i,
    {
        out.push(if cs[i] == from { to } else { cs[i] });
        i += 1;
        assert(out@ =~= replace_char(s@, from, to).take(i as int));
    }
    assert(replace_char(s@, from, to).take(i as int) =~= replace_char(s@, from, to));
    out
}

/// The position of the first `c` among the characters from `from` on, or the end.
pub fn position_of(cs: &Vec<char>, from: usize, c: char) -> (res: usize)
    requires
        from <= cs@.len(),
    ensures
        res == from + first_index(cs@.skip(from as int), c),
        from <= res <= cs@.len(),
{
    let mut i: usize = from;
    while i < cs.len() && cs[i] != c
        invariant
            from <= i <= cs@.len(),
            from + first_index(cs@.skip(from as int), c) == i + first_index(
                cs@.skip(i as int),
                c,
            ),
        decreases cs@.len() - i,
    {
        assert(cs@.skip(i as int).skip(1) =~= cs@.skip(i + 1));
        i += 1;
    }
    i
}

/// Moves the ends of the stretch `from..to` inwards past the white space.
pub fn trim_range(cs: &Vec<char>, from: usize, to: usize) -> (res: (usize, usize))
    requires
        from <= to <= cs@.len(),
    ensures
        from <= res.0 <= res.1 <= to,
        cs@.subrange(res.0 as int, res.1 as int) == trimmed(
            cs@.subrange(from as int, to as int),
        ),
{
    let a = skip_spaces(cs, from, to);
    let mut b: usize = to;
    while a < b && space(cs[b - 1])
        invariant
            from <= a <= b <= to <= cs@.len(),
            trim_end(cs@.subrange(a as int, to as int)) == trim_end(
                cs@.subrange(a as int, b as int),
            ),
        decreases b - a,
    {
        assert(cs@.subrange(a as int, b as int).drop_last() =~= cs@.subrange(a as int, b - 1));
        b -= 1;
    }
    (a, b)
}

fn skip_spaces(cs: &Vec<char>, from: usize, to: usize) -> (res: usize)
    requires
        from <= to <= cs@.len(),
    ensures
        from <= res <= to,
        cs@.subrange(res as int, to as int) == trim_start(cs@.subrange(from as int, to as int)),
{
    let mut i: usize = from;
    while i < to && space(cs[i])
        invariant
            from <= i <= to <= cs@.len(),
            trim_start(cs@.subrange(i as int, to as int)) == trim_start(
                cs@.subrange(from as int, to as int),
            ),
        decreases to - i,
    {
        assert(cs@.subrange(i as int, to as int).skip(1) =~= cs@.subrange(i + 1, to as int));
        i += 1;
    }
    i
}

/// Takes the white space off both ends of `s`.
pub fn trim(s: &str) -> (res: String)
    ensures
        res@ == trimmed(s@),
{
    let cs = chars_of(s);
    let (a, b) = trim_range(&cs, 0, cs.len());
    assert(cs@.subrange(0, cs@.len() as int) =~= s@);
    text_of(&cs, a, b)
}

fn skip_word(cs: &Vec<char>, from: usize) -> (res: usize)
    requires
        from <= cs@.len(),
    ensures
        from <= res <= cs@.len(),
        cs@.subrange(from as int, res as int) == first_word(cs@.skip(from as int)),
{
    let mut i: usize = from;
    assert(cs@.subrange(from as int, from as int) =~= Seq::<char>::empty());
    assert(Seq::<char>::empty() + first_word(cs@.skip(from as int)) =~= first_word(
        cs@.skip(from as int),
    ));
    while i < cs.len() && !space(cs[i])
        invariant
            from <= i <= cs@.len(),
            first_word(cs@.skip(from as int)) == cs@.subrange(from as int, i as int) + first_word(
                cs@.skip(i as int),
            ),
        decreases cs@.len() - i,
    {
        proof {
            let tail = cs@.skip(i as int);
            assert(tail.skip(1) =~= cs@.skip(i + 1));
            assert(cs@.subrange(from as int, i as int) + (seq![tail[0]] + first_word(tail.skip(1)))
                =~= cs@.subrange(from as int, i + 1) + first_word(tail.skip(1)));
        }
        i += 1;
    }
    assert(cs@.subrange(from as int, i as int) + Seq::<char>::empty() =~= cs@.subrange(
        from as int,
        i as int,
    ));
    i
}

/// The second of the words that white space separates in `s`.
pub fn word_two(s: &str) -> (res: Option<String>)
    ensures
        res.deep_view() == second_word(s@),
{
    let cs = chars_of(s);
    let n: usize = cs.len();
    let a = skip_spaces(&cs, 0, n);
    let b = skip_word(&cs, a);
    let c = skip_spaces(&cs, b, n);
    proof {
        assert(cs@.subrange(0, n as int) =~= s@);
        assert(cs@.subrange(a as int, n as int) =~= cs@.skip(a as int));
        assert(cs@.skip(a as int).skip(b - a) =~= cs@.subrange(b as int, n as int));
        assert(cs@.subrange(c as int, n as int) =~= cs@.skip(c as int));
    }
    if c == n {
        None
    } else {
        let d = skip_word(&cs, c);
        Some(text_of(&cs, c, d))
    }
}

/// A text stands at a place of another exactly if it agrees there with the other, character by
/// character.
pub proof fn law_occurrence_agrees_character_by_character(s: Seq<char>, i: int, p: Seq<char>)
    ensures
        occurs_at(s, i, p) <==> 0 <= i && i + p.len() <= s.len() && forall|j: int|
            0 <= j < p.len() ==> s[i + j] == #[trigger] p[j],
        starts_with(s, p) <==> p.is_prefix_of(s),
{
    if 0 <= i && i + p.len() <= s.len() {
        let t = s.subrange(i, i + p.len());
        if forall|j: int| 0 <= j < p.len() ==> s[i + j] == #[trigger] p[j] {
            assert(t =~= p);
        }
        if t == p {
            assert forall|j: int| 0 <= j < p.len() implies s[i + j] == #[trigger] p[j] by {
                assert(t[j] == p[j]);
            }
        }
    }
}

/// What is left behind a prefix, put behind the prefix again, is the whole text; and where there
/// is no such text, nothing is left.
pub proof fn law_prefix_and_remainder_make_the_text(s: Seq<char>, p: Seq<char>, tail: Seq<char>)
    ensures
        without_prefix(p + tail, p) == Some(tail),
        without_prefix(s, p) matches Some(t) ==> s == p + t,
        without_prefix(s, p) is None <==> !p.is_prefix_of(s),
{
    let whole = p + tail;
    assert(whole.subrange(0, p.len() as int) =~= p);
    assert(whole.skip(p.len() as int) =~= tail);
    law_occurrence_agrees_character_by_character(s, 0, p);
    if starts_with(s, p) {
        assert(s =~= p + s.skip(p.len() as int));
    }
}

/// A text holds another exactly if it is the other with something in front and behind.
pub proof fn law_held_text_has_a_front_and_a_back(
    s: Seq<char>,
    p: Seq<char>,
    front: Seq<char>,
    back: Seq<char>,
)
    ensures
        holds(front + p + back, p),
        holds(s, p) ==> exists|a: Seq<char>, b: Seq<char>| s == #[trigger] (a + p + b),
{
    let whole = front + p + back;
    assert(whole.subrange(front.len() as int, (front.len() + p.len()) as int) =~= p);
    assert(occurs_at(whole, front.len() as int, p));
    if holds(s, p) {
        let i = choose|i: int| #[trigger] occurs_at(s, i, p);
        let a = s.take(i);
        let b = s.skip(i + p.len());
        assert(s =~= a + p + b);
    }
}

/// What is removed first is the first occurrence; what stands in front of it stays, and the
/// rest is dealt with in the same way.
pub proof fn law_first_occurrence_is_removed(s: Seq<char>, p: Seq<char>, i: int)
    requires
        p.len() > 0,
        occurs_at(s, i, p),
        forall|j: int| 0 <= j < i ==> !occurs_at(s, j, p),
    ensures
        remove_all(s, p) == s.take(i) + remove_all(s.skip(i + p.len()), p),
    decreases i,
{
    if i == 0 {
        assert(s.take(0) + remove_all(s.skip(p.len() as int), p) =~= remove_all(
            s.skip(p.len() as int),
            p,
        ));
    } else {
        let tail = s.skip(1);
        assert(!occurs_at(s, 0, p));
        assert forall|j: int| 0 <= j < i - 1 implies !occurs_at(tail, j, p) by {
            if occurs_at(tail, j, p) {
                assert(tail.subrange(j, j + p.len()) =~= s.subrange(j + 1, j + 1 + p.len()));
                assert(occurs_at(s, j + 1, p));
            }
        }
        assert(tail.subrange(i - 1, i - 1 + p.len()) =~= s.subrange(i, i + p.len()));
        law_first_occurrence_is_removed(tail, p, i - 1);
        assert(tail.skip(i - 1 + p.len()) =~= s.skip(i + p.len()));
        assert(seq![s[0]] + tail.take(i - 1) =~= s.take(i));
        assert(seq![s[0]] + (tail.take(i - 1) + remove_all(s.skip(i + p.len()), p)) =~= s.take(i)
            + remove_all(s.skip(i + p.len()), p));
    }
}

/// A text that holds no occurrence is left as it is.
pub proof fn law_nothing_else_is_removed(s: Seq<char>, p: Seq<char>)
    requires
        forall|i: int| !occurs_at(s, i, p),
    ensures
        remove_all(s, p) == s,
    decreases s.len(),
{
    if s.len() > 0 && p.len() > 0 {
        let tail = s.skip(1);
        assert(!occurs_at(s, 0, p));
        assert forall|i: int| !occurs_at(tail, i, p) by {
            if occurs_at(tail, i, p) {
                assert(tail.subrange(i, i + p.len()) =~= s.subrange(i + 1, i + 1 + p.len()));
                assert(occurs_at(s, i + 1, p));
            }
        }
        law_nothing_else_is_removed(tail, p);
        assert(seq![s[0]] + tail =~= s);
    }
}

/// Replacing keeps the length and every other character, and leaves none that was to go.
pub proof fn law_replacing_changes_one_character_only(s: Seq<char>, from: char, to: char)
    ensures
        replace_char(s, from, to).len() == s.len(),
        forall|i: int|
            0 <= i < s.len() ==> #[trigger] replace_char(s, from, to)[i] == if s[i] == from {
                to
            } else {
                s[i]
            },
        from != to ==> !replace_char(s, from, to).contains(from),
{
}

/// The first place of a character has the character, and no place before it does; without the
/// character, it is the end.
pub proof fn law_first_index_is_the_first(s: Seq<char>, c: char)
    ensures
        0 <= first_index(s, c) <= s.len(),
        first_index(s, c) < s.len() ==> s[first_index(s, c)] == c,
        forall|i: int| 0 <= i < first_index(s, c) ==> #[trigger] s[i] != c,
        s.contains(c) <==> first_index(s, c) < s.len(),
    decreases s.len(),
{
    if s.len() > 0 && s[0] != c {
        let tail = s.skip(1);
        law_first_index_is_the_first(tail, c);
        assert forall|i: int| 0 <= i < first_index(s, c) implies #[trigger] s[i] != c by {
            if i > 0 {
                assert(s[i] == tail[i - 1]);
            }
        }
    }
}

proof fn lemma_trim_start(s: Seq<char>) -> (k: int)
    ensures
        0 <= k <= s.len(),
        trim_start(s) == s.skip(k),
        forall|i: int| 0 <= i < k ==> is_space(#[trigger] s[i]),
        k < s.len() ==> !is_space(s[k]),
    decreases s.len(),
{
    if s.len() > 0 && is_space(s[0]) {
        let tail = s.skip(1);
        let k = lemma_trim_start(tail);
        assert(tail.skip(k) =~= s.skip(k + 1));
        assert forall|i: int| 0 <= i < k + 1 implies is_space(#[trigger] s[i]) by {
            if i > 0 {
                assert(s[i] == tail[i - 1]);
            }
        }
        k + 1
    } else {
        assert(s.skip(0) =~= s);
        0
    }
}

proof fn lemma_trim_end(s: Seq<char>) -> (k: int)
    ensures
        0 <= k <= s.len(),
        trim_end(s) == s.take(k),
        forall|i: int| k <= i < s.len() ==> is_space(#[trigger] s[i]),
        k > 0 ==> !is_space(s[k - 1]),
    decreases s.len(),
{
    if s.len() > 0 && is_space(s.last()) {
        let front = s.drop_last();
        let k = lemma_trim_end(front);
        assert(front.take(k) =~= s.take(k));
        assert forall|i: int| k <= i < s.len() implies is_space(#[trigger] s[i]) by {
            if i < s.len() - 1 {
                assert(s[i] == front[i]);
            }
        }
        k
    } else {
        assert(s.take(s.len() as int) =~= s);
        s.len() as int
    }
}

/// Trimming takes a stretch out of the text that neither begins nor ends with white space, and
/// around which there is nothing else.
pub proof fn law_trimming_takes_white_space_only(s: Seq<char>)
    ensures
        exists|a: int, b: int|
            {
                &&& 0 <= a <= b <= s.len()
                &&& trimmed(s) == #[trigger] s.subrange(a, b)
                &&& forall|i: int| 0 <= i < a || b <= i < s.len() ==> is_space(#[trigger] s[i])
            },
        trimmed(s).len() > 0 ==> !is_space(trimmed(s)[0]) && !is_space(trimmed(s).last()),
{
    let a = lemma_trim_start(s);
    let tail = s.skip(a);
    let k = lemma_trim_end(tail);
    let b = a + k;
    assert(tail.take(k) =~= s.subrange(a, b));
    assert forall|i: int| 0 <= i < a || b <= i < s.len() implies is_space(#[trigger] s[i]) by {
        if i >= b {
            assert(s[i] == tail[i - a]);
        }
    }
    if k > 0 {
        assert(trimmed(s)[0] == s[a]);
        assert(trimmed(s).last() == tail[k - 1]);
    }
}

/// The characters that count as white space.
pub proof fn law_white_space(c: char)
    ensures
        is_space(c) <==> seq![
            '\t',
            '\n',
            '\u{b}',
            '\u{c}',
            '\r',
            ' ',
            '\u{85}',
            '\u{a0}',
            '\u{1680}',
            '\u{2000}',
            '\u{2001}',
            '\u{2002}',
            '\u{2003}',
            '\u{2004}',
            '\u{2005}',
            '\u{2006}',
            '\u{2007}',
            '\u{2008}',
            '\u{2009}',
            '\u{200a}',
            '\u{2028}',
            '\u{2029}',
            '\u{202f}',
            '\u{205f}',
            '\u{3000}',
        ].contains(c),
{
    let all = seq![
        '\t',
        '\n',
        '\u{b}',
        '\u{c}',
        '\r',
        ' ',
        '\u{85}',
        '\u{a0}',
        '\u{1680}',
        '\u{2000}',
        '\u{2001}',
        '\u{2002}',
        '\u{2003}',
        '\u{2004}',
        '\u{2005}',
        '\u{2006}',
        '\u{2007}',
        '\u{2008}',
        '\u{2009}',
        '\u{200a}',
        '\u{2028}',
        '\u{2029}',
        '\u{202f}',
        '\u{205f}',
        '\u{3000}',
    ];
    assert(all[0] == '\t' && all[1] == '\n' && all[2] == '\u{b}' && all[3] == '\u{c}' && all[4]
        == '\r' && all[5] == ' ' && all[6] == '\u{85}' && all[7] == '\u{a0}' && all[8]
        == '\u{1680}');
    assert(all[9] == '\u{2000}' && all[10] == '\u{2001}' && all[11] == '\u{2002}' && all[12]
        == '\u{2003}' && all[13] == '\u{2004}' && all[14] == '\u{2005}' && all[15] == '\u{2006}'
        && all[16] == '\u{2007}' && all[17] == '\u{2008}' && all[18] == '\u{2009}' && all[19]
        == '\u{200a}');
    assert(all[20] == '\u{2028}' && all[21] == '\u{2029}' && all[22] == '\u{202f}' && all[23]
        == '\u{205f}' && all[24] == '\u{3000}');
}

proof fn lemma_first_word(word: Seq<char>, tail: Seq<char>)
    requires
        forall|i: int| 0 <= i < word.len() ==> !is_space(#[trigger] word[i]),
        tail.len() > 0 ==> is_space(tail[0]),
    ensures
        first_word(word + tail) == word,
    decreases word.len(),
{
    let s = word + tail;
    if word.len() == 0 {
        assert(s =~= tail);
        assert(first_word(s) =~= word);
    } else {
        let rest = word.skip(1);
        assert(s[0] == word[0]);
        assert(s.skip(1) =~= rest + tail);
        assert forall|i: int| 0 <= i < rest.len() implies !is_space(#[trigger] rest[i]) by {
            assert(rest[i] == word[i + 1]);
        }
        lemma_first_word(rest, tail);
        assert(seq![s[0]] + rest =~= word);
    }
}

proof fn lemma_trim_start_stops(spaces: Seq<char>, tail: Seq<char>)
    requires
        forall|i: int| 0 <= i < spaces.len() ==> is_space(#[trigger] spaces[i]),
        tail.len() > 0 ==> !is_space(tail[0]),
    ensures
        trim_start(spaces + tail) == tail,
    decreases spaces.len(),
{
    let s = spaces + tail;
    if spaces.len() == 0 {
        assert(s =~= tail);
    } else {
        let rest = spaces.skip(1);
        assert(s[0] == spaces[0]);
        assert(s.skip(1) =~= rest + tail);
        assert forall|i: int| 0 <= i < rest.len() implies is_space(#[trigger] rest[i]) by {
            assert(rest[i] == spaces[i + 1]);
        }
        lemma_trim_start_stops(rest, tail);
    }
}

/// Of two words with white space around them, the second is the second word; a single word, or
/// none, has no second.
pub proof fn law_second_word_is_behind_the_first(
    front: Seq<char>,
    one: Seq<char>,
    between: Seq<char>,
    two: Seq<char>,
    back: Seq<char>,
)
    requires
        one.len() > 0,
        two.len() > 0,
        between.len() > 0,
        forall|i: int| 0 <= i < front.len() ==> is_space(#[trigger] front[i]),
        forall|i: int| 0 <= i < one.len() ==> !is_space(#[trigger] one[i]),
        forall|i: int| 0 <= i < between.len() ==> is_space(#[trigger] between[i]),
        forall|i: int| 0 <= i < two.len() ==> !is_space(#[trigger] two[i]),
        back.len() > 0 ==> is_space(back[0]),
    ensures
        second_word(front + one + between + two + back) == Some(two),
        second_word(front + one + between) is None,
        second_word(front + one) is None,
        second_word(front) is None,
{
    let tail = two + back;
    let s = front + (one + (between + tail));
    assert(front + one + between + two + back =~= s);
    assert(!is_space(one[0]) && is_space(between[0]) && !is_space(two[0]));
    lemma_trim_start_stops(front, one + (between + tail));
    lemma_first_word(one, between + tail);
    assert((one + (between + tail)).skip(one.len() as int) =~= between + tail);
    lemma_trim_start_stops(between, tail);
    lemma_first_word(two, back);
    let none = Seq::<char>::empty();
    assert(front + one + between =~= front + (one + between));
    lemma_trim_start_stops(front, one + between);
    lemma_first_word(one, between);
    assert((one + between).skip(one.len() as int) =~= between);
    lemma_trim_start_stops(between, none);
    assert(between + none =~= between);
    lemma_trim_start_stops(front, one);
    lemma_first_word(one, none);
    assert(one + none =~= one);
    assert(one.skip(one.len() as int) =~= none);
    lemma_trim_start_stops(front, none);
    assert(front + none =~= front);
    assert(first_word(none) =~= none);
    assert(none.skip(0) =~= none);
}

} // verus!
