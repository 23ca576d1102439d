use vstd::prelude::*;
use vstd::string::StrSliceExecFns;
use vstd::string::StringExecFns;

verus! {

// ---------------------------------------------------------------------------
// Character classes used by the protocol parser and the command resolver.
// The parser recognizes the ASCII word and whitespace characters that occur
// in the wire protocol's lines.
// ---------------------------------------------------------------------------

/// ASCII whitespace: space, tab, carriage return, line feed.
pub open spec fn is_ws_char(c: char) -> bool {
    c == ' ' || c == '\t' || c == '\r' || c == '\n'
}

/// Characters trimmed from a subcommand token before lookup.
pub open spec fn is_mark_char(c: char) -> bool {
    c == '-' || c == '\n' || c == '\r'
}

/// ASCII word characters: letters, digits and underscore.
pub open spec fn is_word_char(c: char) -> bool {
    ('a' as u32 <= c as u32 && c as u32 <= 'z' as u32) || ('A' as u32 <= c as u32 && c as u32
        <= 'Z' as u32) || ('0' as u32 <= c as u32 && c as u32 <= '9' as u32) || c == '_'
}

pub(crate) fn ws_char(c: char) -> (r: bool)
    ensures
        r == is_ws_char(c),
{
    c == ' ' || c == '\t' || c == '\r' || c == '\n'
}

pub(crate) fn mark_char(c: char) -> (r: bool)
    ensures
        r == is_mark_char(c),
{
    c == '-' || c == '\n' || c == '\r'
}

pub(crate) fn word_char(c: char) -> (r: bool)
    ensures
        r == is_word_char(c),
{
    let u = c as u32;
    ('a' as u32 <= u && u <= 'z' as u32) || ('A' as u32 <= u && u <= 'Z' as u32) || ('0' as u32
        <= u && u <= '9' as u32) || c == '_'
}

// ---------------------------------------------------------------------------
// Names for the results of the case-mapping functions of std, which depend on
// their arguments alone.
// ---------------------------------------------------------------------------

pub uninterp spec fn lowercase_of(s: Seq<char>) -> Seq<char>;

pub uninterp spec fn is_uppercase_char(c: char) -> bool;

/// Relies on str::to_lowercase: the lowercase form of a string depends on its
/// characters alone.
#[verifier::external_body]
pub(crate) fn to_lowercase(s: &str) -> (r: String)
    ensures
        r@ == lowercase_of(s@),
{
    s.to_lowercase()
}

/// Relies on char::is_uppercase: whether a character is uppercase depends on
/// the character alone.
#[verifier::external_body]
pub(crate) fn char_is_uppercase(c: char) -> (r: bool)
    ensures
        r == is_uppercase_char(c),
{
    c.is_uppercase()
}

// ---------------------------------------------------------------------------
// String equality on character sequences.
// ---------------------------------------------------------------------------

pub fn str_eq(a: &str, b: &str) -> (r: bool)
    ensures
        r == (a@ == b@),
{
    let alen = a.unicode_len();
    let blen = b.unicode_len();
    if alen != blen {
        return false;
    }
    let mut i: usize = 0;
    while i < alen
        invariant
            i <= alen,
            alen == a@.len(),
            alen == b@.len(),
            forall|j: int| 0 <= j < i ==> a@[j] == b@[j],
        decreases alen - i,
    {
        if a.get_char(i) != b.get_char(i) {
            return false;
        }
        i = i + 1;
    }
    proof {
        assert(a@ =~= b@);
    }
    true
}

// ---------------------------------------------------------------------------
// Splitting on single spaces, and rejoining with single spaces.
// ---------------------------------------------------------------------------

/// Index of the first space in `s`, or -1 if there is none.
pub open spec fn first_space(s: Seq<char>) -> int
    decreases s.len(),
{
    if s.len() == 0 {
        -1
    } else if s[0] == ' ' {
        0
    } else {
        let r = first_space(s.skip(1));
        if r == -1 {
            -1
        } else {
            r + 1
        }
    }
}

pub proof fn lemma_first_space(s: Seq<char>)
    ensures
        first_space(s) == -1 ==> forall|j: int| 0 <= j < s.len() ==> s[j] != ' ',
        first_space(s) != -1 ==> 0 <= first_space(s) < s.len() && s[first_space(s)] == ' ' && (
        forall|j: int| 0 <= j < first_space(s) ==> s[j] != ' '),
    decreases s.len(),
{
    if s.len() > 0 && s[0] != ' ' {
        lemma_first_space(s.skip(1));
        let r = first_space(s.skip(1));
        if r != -1 {
            assert(s[r + 1] == s.skip(1)[r]);
            assert forall|j: int| 0 <= j < r + 1 implies s[j] != ' ' by {
                if j > 0 {
                    assert(s[j] == s.skip(1)[j - 1]);
                }
            }
        } else {
            assert forall|j: int| 0 <= j < s.len() implies s[j] != ' ' by {
                if j > 0 {
                    assert(s[j] == s.skip(1)[j - 1]);
                }
            }
        }
    }
}

/// The tokens of `s`, split on every single space, empty tokens kept.
pub open spec fn split_spec(s: Seq<char>) -> Seq<Seq<char>>
    decreases s.len(),
{
    let i = first_space(s);
    if i == -1 {
        seq![s]
    } else {
        proof {
            lemma_first_space(s);
        }
        seq![s.take(i)] + split_spec(s.skip(i + 1))
    }
}

/// The tokens rejoined with single spaces.
pub open spec fn join_spec(ts: Seq<Seq<char>>) -> Seq<char>
    decreases ts.len(),
{
    if ts.len() == 0 {
        Seq::empty()
    } else if ts.len() == 1 {
        ts[0]
    } else {
        ts[0] + seq![' '] + join_spec(ts.skip(1))
    }
}

pub proof fn lemma_split_len(s: Seq<char>)
    ensures
        split_spec(s).len() >= 1,
    decreases s.len(),
{
    lemma_first_space(s);
    if first_space(s) != -1 {
        lemma_split_len(s.skip(first_space(s) + 1));
    }
}

/// Splitting and rejoining gives the original string back.
pub proof fn lemma_join_split(s: Seq<char>)
    ensures
        join_spec(split_spec(s)) == s,
    decreases s.len(),
{
    lemma_first_space(s);
    let i = first_space(s);
    if i == -1 {
    } else {
        let rest = s.skip(i + 1);
        lemma_join_split(rest);
        lemma_split_len(rest);
        let ts = seq![s.take(i)] + split_spec(rest);
        assert(ts.skip(1) =~= split_spec(rest));
        assert(s.take(i) + seq![' '] + rest =~= s);
    }
}

/// A rejoined suffix of the token list is a suffix of the original string.
pub proof fn lemma_join_split_suffix(s: Seq<char>, m: int)
    requires
        0 <= m <= split_spec(s).len(),
    ensures
        exists|p: int|
            0 <= p <= s.len() && join_spec(split_spec(s).skip(m)) == s.skip(p),
    decreases m,
{
    lemma_first_space(s);
    let i = first_space(s);
    if m == split_spec(s).len() {
        assert(split_spec(s).skip(m) =~= Seq::<Seq<char>>::empty());
        assert(s.skip(s.len() as int) =~= Seq::<char>::empty());
        assert(join_spec(split_spec(s).skip(m)) == s.skip(s.len() as int));
    } else if m == 0 {
        lemma_join_split(s);
        assert(split_spec(s).skip(0) =~= split_spec(s));
        assert(s.skip(0) =~= s);
        assert(join_spec(split_spec(s).skip(0)) == s.skip(0));
    } else {
        let rest = s.skip(i + 1);
        lemma_split_len(rest);
        assert(split_spec(s) == seq![s.take(i)] + split_spec(rest));
        assert(split_spec(s).skip(m) =~= split_spec(rest).skip(m - 1));
        lemma_join_split_suffix(rest, m - 1);
        let p = choose|p: int|
            0 <= p <= rest.len() && join_spec(split_spec(rest).skip(m - 1)) == rest.skip(p);
        assert(rest.skip(p) =~= s.skip(i + 1 + p));
    }
}

// ---------------------------------------------------------------------------
// Trimming characters from both ends.
// ---------------------------------------------------------------------------

pub open spec fn trim_marks_front(s: Seq<char>) -> Seq<char>
    decreases s.len(),
{
    if s.len() > 0 && is_mark_char(s[0]) {
        trim_marks_front(s.skip(1))
    } else {
        s
    }
}

pub open spec fn trim_marks_back(s: Seq<char>) -> Seq<char>
    decreases s.len(),
{
    if s.len() > 0 && is_mark_char(s.last()) {
        trim_marks_back(s.drop_last())
    } else {
        s
    }
}

/// The dash and newline characters dropped from both ends of a token.
pub open spec fn trim_marks(s: Seq<char>) -> Seq<char> {
    trim_marks_back(trim_marks_front(s))
}

pub open spec fn trim_ws_front(s: Seq<char>) -> Seq<char>
    decreases s.len(),
{
    if s.len() > 0 && is_ws_char(s[0]) {
        trim_ws_front(s.skip(1))
    } else {
        s
    }
}

pub open spec fn trim_ws_back(s: Seq<char>) -> Seq<char>
    decreases s.len(),
{
    if s.len() > 0 && is_ws_char(s.last()) {
        trim_ws_back(s.drop_last())
    } else {
        s
    }
}

/// ASCII whitespace dropped from both ends of a line.
pub open spec fn trim_ws(s: Seq<char>) -> Seq<char> {
    trim_ws_back(trim_ws_front(s))
}

pub proof fn lemma_trim_ws_back_prefix(s: Seq<char>)
    ensures
        trim_ws_back(s).len() <= s.len(),
        forall|i: int| 0 <= i < trim_ws_back(s).len() ==> trim_ws_back(s)[i] == s[i],
    decreases s.len(),
{
    if s.len() > 0 && is_ws_char(s.last()) {
        lemma_trim_ws_back_prefix(s.drop_last());
        assert forall|i: int| 0 <= i < trim_ws_back(s).len() implies trim_ws_back(s)[i]
            == s[i] by {
            assert(trim_ws_back(s)[i] == s.drop_last()[i]);
        }
    }
}

pub fn trim_marks_str(s: &str) -> (r: &str)
    ensures
        r@ == trim_marks(s@),
{
    let len = s.unicode_len();
    let mut start: usize = 0;
    proof {
        assert(s@.skip(0) =~= s@);
    }
    while start < len && mark_char(s.get_char(start))
        invariant
            start <= len,
            len == s@.len(),
            trim_marks_front(s@) == trim_marks_front(s@.skip(start as int)),
        decreases len - start,
    {
        proof {
            assert(s@.skip(start as int).skip(1) =~= s@.skip(start as int + 1));
        }
        start = start + 1;
    }
    proof {
        assert(trim_marks_front(s@.skip(start as int)) == s@.skip(start as int));
        assert(s@.subrange(start as int, len as int) =~= s@.skip(start as int));
    }
    let mut end: usize = len;
    while end > start && mark_char(s.get_char(end - 1))
        invariant
            start <= end <= len,
            len == s@.len(),
            trim_marks_front(s@) == s@.skip(start as int),
            trim_marks_back(s@.subrange(start as int, end as int)) == trim_marks_back(
                s@.skip(start as int),
            ),
        decreases end,
    {
        proof {
            assert(s@.subrange(start as int, end as int).drop_last() =~= s@.subrange(
                start as int,
                end as int - 1,
            ));
        }
        end = end - 1;
    }
    proof {
        assert(trim_marks_back(s@.subrange(start as int, end as int)) == s@.subrange(
            start as int,
            end as int,
        ));
    }
    s.substring_char(start, end)
}

/// The views of a sequence of owned strings.
pub open spec fn views_of(ts: Seq<String>) -> Seq<Seq<char>> {
    ts.map_values(|t: String| t@)
}

pub fn split_str(s: &str) -> (r: Vec<String>)
    ensures
        views_of(r@) == split_spec(s@),
    decreases s@.len(),
{
    let len = s.unicode_len();
    let mut i: usize = 0;
    while i < len && s.get_char(i) != ' '
        invariant
            i <= len,
            len == s@.len(),
            forall|j: int| 0 <= j < i ==> s@[j] != ' ',
        decreases len - i,
    {
        i = i + 1;
    }
    proof {
        lemma_first_space(s@);
    }
    if i == len {
        let r: Vec<String> = vec![s.to_owned()];
        proof {
            assert(first_space(s@) == -1);
            assert(views_of(r@) =~= seq![s@]);
        }
        r
    } else {
        proof {
            assert(s@[i as int] == ' ');
            assert(first_space(s@) == i as int);
        }
        let head = s.substring_char(0, i);
        let tail = s.substring_char(i + 1, len);
        let mut rest = split_str(tail);
        rest.insert(0, head.to_owned());
        proof {
            assert(tail@ =~= s@.skip(i as int + 1));
            assert(head@ =~= s@.take(i as int));
            assert(views_of(rest@) =~= seq![s@.take(i as int)] + split_spec(s@.skip(i as int + 1)));
        }
        rest
    }
}

pub fn join_from(toks: &Vec<String>, start: usize) -> (r: String)
    requires
        start <= toks@.len(),
    ensures
        r@ == join_spec(views_of(toks@).skip(start as int)),
    decreases toks@.len() - start,
{
    proof {
        reveal_strlit(" ");
    }
    if start == toks.len() {
        let r = String::new();
        proof {
            assert(views_of(toks@).skip(start as int) =~= Seq::<Seq<char>>::empty());
        }
        r
    } else if start == toks.len() - 1 {
        let r = toks[start].as_str().to_owned();
        proof {
            assert(views_of(toks@).skip(start as int).len() == 1);
            assert(views_of(toks@).skip(start as int)[0] == toks@[start as int]@);
        }
        r
    } else {
        let mut acc = toks[start].as_str().to_owned();
        acc.append(" ");
        let rest = join_from(toks, start + 1);
        acc.append(rest.as_str());
        proof {
            let ts = views_of(toks@).skip(start as int);
            assert(ts.len() >= 2);
            assert(ts[0] == toks@[start as int]@);
            assert(ts.skip(1) =~= views_of(toks@).skip(start as int + 1));
            assert(" "@ =~= seq![' ']);
            assert(acc@ == ts[0] + seq![' '] + join_spec(ts.skip(1)));
        }
        acc
    }
}

pub fn contains_string(v: &Vec<String>, s: &str) -> (r: bool)
    ensures
        r == (exists|j: int| 0 <= j < v@.len() && v@[j]@ == s@),
{
    let mut i: usize = 0;
    while i < v.len()
        invariant
            i <= v@.len(),
            forall|j: int| 0 <= j < i ==> v@[j]@ != s@,
        decreases v@.len() - i,
    {
        if str_eq(v[i].as_str(), s) {
            return true;
        }
        i = i + 1;
    }
    false
}

// ---------------------------------------------------------------------------
// Prefixes and maximal character runs, for the line parser.
// ---------------------------------------------------------------------------

/// `p` occurs in `s` at position `i`.
pub open spec fn has_prefix_at(s: Seq<char>, i: int, p: Seq<char>) -> bool {
    0 <= i && i + p.len() <= s.len() && s.subrange(i, i + p.len()) == p
}

pub fn prefix_at(s: &str, i: usize, p: &str) -> (r: bool)
    requires
        i <= s@.len(),
    ensures
        r == has_prefix_at(s@, i as int, p@),
{
    let slen = s.unicode_len();
    let plen = p.unicode_len();
    if plen > slen - i {
        return false;
    }
    let mut k: usize = 0;
    while k < plen
        invariant
            k <= plen,
            i + plen <= slen,
            slen == s@.len(),
            plen == p@.len(),
            forall|j: int| 0 <= j < k ==> s@[i + j] == p@[j],
        decreases plen - k,
    {
        if s.get_char(i + k) != p.get_char(k) {
            return false;
        }
        k = k + 1;
    }
    proof {
        assert(s@.subrange(i as int, i as int + p@.len()) =~= p@);
    }
    true
}

/// End of the maximal run of word characters starting at `i`.
pub open spec fn word_run_end(s: Seq<char>, i: int) -> int
    decreases s.len() - i,
    when 0 <= i <= s.len()
{
    if i < s.len() && is_word_char(s[i]) {
        word_run_end(s, i + 1)
    } else {
        i
    }
}

/// End of the maximal run of ASCII whitespace starting at `i`.
pub open spec fn ws_run_end(s: Seq<char>, i: int) -> int
    decreases s.len() - i,
    when 0 <= i <= s.len()
{
    if i < s.len() && is_ws_char(s[i]) {
        ws_run_end(s, i + 1)
    } else {
        i
    }
}

pub fn scan_word_run(s: &str, i: usize) -> (r: usize)
    requires
        i <= s@.len(),
    ensures
        r == word_run_end(s@, i as int),
        i <= r <= s@.len(),
{
    let len = s.unicode_len();
    let mut j: usize = i;
    while j < len && word_char(s.get_char(j))
        invariant
            i <= j <= len,
            len == s@.len(),
            word_run_end(s@, i as int) == word_run_end(s@, j as int),
        decreases len - j,
    {
        j = j + 1;
    }
    j
}

pub fn scan_ws_run(s: &str, i: usize) -> (r: usize)
    requires
        i <= s@.len(),
    ensures
        r == ws_run_end(s@, i as int),
        i <= r <= s@.len(),
{
    let len = s.unicode_len();
    let mut j: usize = i;
    while j < len && ws_char(s.get_char(j))
        invariant
            i <= j <= len,
            len == s@.len(),
            ws_run_end(s@, i as int) == ws_run_end(s@, j as int),
        decreases len - j,
    {
        j = j + 1;
    }
    j
}

pub fn trim_ws_str(s: &str) -> (r: &str)
    ensures
        r@ == trim_ws(s@),
{
    let len = s.unicode_len();
    let mut start: usize = 0;
    proof {
        assert(s@.skip(0) =~= s@);
    }
    while start < len && ws_char(s.get_char(start))
        invariant
            start <= len,
            len == s@.len(),
            trim_ws_front(s@) == trim_ws_front(s@.skip(start as int)),
        decreases len - start,
    {
        proof {
            assert(s@.skip(start as int).skip(1) =~= s@.skip(start as int + 1));
        }
        start = start + 1;
    }
    proof {
        assert(trim_ws_front(s@.skip(start as int)) == s@.skip(start as int));
        assert(s@.subrange(start as int, len as int) =~= s@.skip(start as int));
    }
    let mut end: usize = len;
    while end > start && ws_char(s.get_char(end - 1))
        invariant
            start <= end <= len,
            len == s@.len(),
            trim_ws_front(s@) == s@.skip(start as int),
            trim_ws_back(s@.subrange(start as int, end as int)) == trim_ws_back(
                s@.skip(start as int),
            ),
        decreases end,
    {
        proof {
            assert(s@.subrange(start as int, end as int).drop_last() =~= s@.subrange(
                start as int,
                end as int - 1,
            ));
        }
        end = end - 1;
    }
    proof {
        assert(trim_ws_back(s@.subrange(start as int, end as int)) == s@.subrange(
            start as int,
            end as int,
        ));
    }
    s.substring_char(start, end)
}

} // verus!
