//! Heuristic extraction of programming-cable names from free-form toolchain
//! output.
//!
//! The toolchain's output format is not contractually documented, so recovery
//! is layered and permissive: per line (after trimming list decoration), every
//! quoted span whose lower-cased content mentions a cable keyword, every line
//! carrying the vendor's usual cable phrase, and the value of the first
//! `cable ... :`/`=` pair are all candidates. Candidates are reported in
//! first-seen order, deduplicated by exact bytes.
//!
//! The text is modelled as a byte sequence; keyword matching is ASCII
//! case-insensitive.

use vstd::prelude::*;

verus! {

/// ASCII whitespace, the class trimmed from lines and candidate names.
pub open spec fn is_space(b: u8) -> bool {
    b == 32 || b == 9 || b == 10 || b == 13 || b == 11 || b == 12
}

/// List-decoration bytes stripped from the start of a line: digits,
/// brackets, dots, closing parentheses, dashes and whitespace.
pub open spec fn is_decor(b: u8) -> bool {
    (48 <= b && b <= 57) || b == 91 || b == 93 || b == 46 || b == 41 || b == 45 || is_space(b)
}

/// ASCII lower-casing of one byte.
pub open spec fn lower(b: u8) -> u8 {
    if 65 <= b && b <= 90 {
        (b + 32) as u8
    } else {
        b
    }
}

/// Lower-cased copy of a byte sequence.
pub open spec fn lower_seq(s: Seq<u8>) -> Seq<u8> {
    s.map_values(|b: u8| lower(b))
}

/// The keyword `cable`.
pub open spec fn kw_cable() -> Seq<u8> {
    seq![99u8, 97u8, 98u8, 108u8, 101u8]
}

/// The keyword `gowin`.
pub open spec fn kw_gowin() -> Seq<u8> {
    seq![103u8, 111u8, 119u8, 105u8, 110u8]
}

/// The literal phrase `gowin usb cable`.
pub open spec fn kw_phrase() -> Seq<u8> {
    seq![103u8, 111u8, 119u8, 105u8, 110u8, 32u8, 117u8, 115u8, 98u8, 32u8, 99u8, 97u8, 98u8,
        108u8, 101u8]
}

/// `pat` occurs in `s` starting at index `i`.
pub open spec fn contains_at(s: Seq<u8>, i: int, pat: Seq<u8>) -> bool {
    0 <= i && i + pat.len() <= s.len() && s.subrange(i, i + pat.len()) == pat
}

/// `pat` occurs somewhere in `s`.
pub open spec fn contains_pat(s: Seq<u8>, pat: Seq<u8>) -> bool {
    exists|i: int| contains_at(s, i, pat)
}

/// Index of the first occurrence of `b` in `s`, or `s.len()` if there is none.
pub open spec fn find_byte(s: Seq<u8>, b: u8) -> int
    decreases s.len(),
{
    if s.len() == 0 {
        0
    } else if s[0] == b {
        0
    } else {
        1 + find_byte(s.drop_first(), b)
    }
}

/// Index of the first occurrence of `pat` in `s`, or `s.len()` if there is
/// none (callers pass a non-empty `pat`).
pub open spec fn find_pat(s: Seq<u8>, pat: Seq<u8>) -> int
    decreases s.len(),
{
    if contains_at(s, 0, pat) {
        0
    } else if s.len() == 0 {
        0
    } else {
        1 + find_pat(s.drop_first(), pat)
    }
}

/// Whitespace removed from the front.
pub open spec fn trim_start(s: Seq<u8>) -> Seq<u8>
    decreases s.len(),
{
    if s.len() > 0 && is_space(s[0]) {
        trim_start(s.drop_first())
    } else {
        s
    }
}

/// Whitespace removed from the back.
pub open spec fn trim_end(s: Seq<u8>) -> Seq<u8>
    decreases s.len(),
{
    if s.len() > 0 && is_space(s.last()) {
        trim_end(s.drop_last())
    } else {
        s
    }
}

/// Whitespace removed from both ends.
pub open spec fn trim(s: Seq<u8>) -> Seq<u8> {
    trim_end(trim_start(s))
}

/// List decoration removed from the front.
pub open spec fn drop_decor(s: Seq<u8>) -> Seq<u8>
    decreases s.len(),
{
    if s.len() > 0 && is_decor(s[0]) {
        drop_decor(s.drop_first())
    } else {
        s
    }
}

/// Double quotes removed from the front.
pub open spec fn drop_quotes_start(s: Seq<u8>) -> Seq<u8>
    decreases s.len(),
{
    if s.len() > 0 && s[0] == 34 {
        drop_quotes_start(s.drop_first())
    } else {
        s
    }
}

/// Double quotes removed from the back.
pub open spec fn drop_quotes_end(s: Seq<u8>) -> Seq<u8>
    decreases s.len(),
{
    if s.len() > 0 && s.last() == 34 {
        drop_quotes_end(s.drop_last())
    } else {
        s
    }
}

/// Double quotes removed from both ends.
pub open spec fn trim_quotes(s: Seq<u8>) -> Seq<u8> {
    drop_quotes_end(drop_quotes_start(s))
}

/// A quoted span is a candidate when its lower-cased content mentions
/// `cable` or `gowin`.
pub open spec fn keyword_ok(v: Seq<u8>) -> bool {
    contains_pat(lower_seq(v), kw_cable()) || contains_pat(lower_seq(v), kw_gowin())
}

/// Quoted-token rule, scanning `s` left to right. `cur` is `Some(tok)` while
/// inside an open quote with `tok` the content read so far; an unmatched
/// final quote yields nothing.
pub open spec fn quote_scan(s: Seq<u8>, cur: Option<Seq<u8>>) -> Seq<Seq<u8>>
    decreases s.len(),
{
    if s.len() == 0 {
        seq![]
    } else {
        let b = s[0];
        let rest = s.drop_first();
        match cur {
            Option::None => {
                if b == 34 {
                    quote_scan(rest, Option::Some(seq![]))
                } else {
                    quote_scan(rest, Option::None)
                }
            },
            Option::Some(tok) => {
                if b == 34 {
                    let v = trim(tok);
                    if keyword_ok(v) {
                        seq![v] + quote_scan(rest, Option::None)
                    } else {
                        quote_scan(rest, Option::None)
                    }
                } else {
                    quote_scan(rest, Option::Some(tok.push(b)))
                }
            },
        }
    }
}

/// All candidates of the quoted-token rule on one stripped line.
pub open spec fn quoted_candidates(s: Seq<u8>) -> Seq<Seq<u8>> {
    quote_scan(s, Option::None)
}

/// Literal-phrase rule: the whole stripped line is a candidate when its
/// lower-cased form contains `gowin usb cable`.
pub open spec fn phrase_candidate(stripped: Seq<u8>) -> Option<Seq<u8>> {
    if contains_pat(lower_seq(stripped), kw_phrase()) {
        Option::Some(stripped)
    } else {
        Option::None
    }
}

/// Key-value rule: from the first (case-insensitive) `cable` on, the trimmed,
/// quote-stripped text after the first `:` — or, failing that, the first
/// `=` — is a candidate when non-empty.
pub open spec fn kv_candidate(stripped: Seq<u8>) -> Option<Seq<u8>> {
    if contains_pat(lower_seq(stripped), kw_cable()) {
        let idx = find_pat(lower_seq(stripped), kw_cable());
        let tail = stripped.subrange(idx, stripped.len() as int);
        let posc = find_byte(tail, 58);
        let pose = find_byte(tail, 61);
        if posc < tail.len() || pose < tail.len() {
            let pos = if posc < tail.len() {
                posc
            } else {
                pose
            };
            let v = trim_quotes(trim(tail.subrange(pos + 1, tail.len() as int)));
            if v.len() > 0 {
                Option::Some(v)
            } else {
                Option::None
            }
        } else {
            Option::None
        }
    } else {
        Option::None
    }
}

/// Helper that appends an optional candidate.
pub open spec fn opt_seq(c: Option<Seq<u8>>) -> Seq<Seq<u8>> {
    match c {
        Option::Some(v) => seq![v],
        Option::None => seq![],
    }
}

/// All candidates of one raw line, in rule order: quoted tokens, then the
/// literal phrase, then the key-value pair. A line that is blank after
/// trimming yields nothing.
pub open spec fn line_candidates(line: Seq<u8>) -> Seq<Seq<u8>> {
    let l = trim(line);
    if l.len() == 0 {
        seq![]
    } else {
        let stripped = trim(drop_decor(l));
        quoted_candidates(stripped) + opt_seq(phrase_candidate(stripped)) + opt_seq(
            kv_candidate(stripped),
        )
    }
}

/// Candidates of the whole text, scanning left to right; `cur` is the line
/// read so far. Lines are separated by newline bytes.
pub open spec fn line_scan(text: Seq<u8>, cur: Seq<u8>) -> Seq<Seq<u8>>
    decreases text.len(),
{
    if text.len() == 0 {
        line_candidates(cur)
    } else if text[0] == 10 {
        line_candidates(cur) + line_scan(text.drop_first(), seq![])
    } else {
        line_scan(text.drop_first(), cur.push(text[0]))
    }
}

/// All candidates of the text, in encounter order, duplicates kept.
pub open spec fn raw_candidates(text: Seq<u8>) -> Seq<Seq<u8>> {
    line_scan(text, seq![])
}

/// First occurrences kept, in order.
pub open spec fn dedup(s: Seq<Seq<u8>>) -> Seq<Seq<u8>>
    decreases s.len(),
{
    if s.len() == 0 {
        seq![]
    } else {
        let d = dedup(s.drop_last());
        if d.contains(s.last()) {
            d
        } else {
            d.push(s.last())
        }
    }
}

/// What `parse_cable_names` returns: the distinct candidates of the text in
/// first-seen order.
pub open spec fn parse_cables(text: Seq<u8>) -> Seq<Seq<u8>> {
    dedup(raw_candidates(text))
}

/// `v` holds at least one byte that is not whitespace.
pub open spec fn has_ink(v: Seq<u8>) -> bool {
    exists|i: int| 0 <= i < v.len() && !is_space(v[i])
}

/// The key-value rule's candidate on this stripped line, if any, is not
/// whitespace-only.
pub open spec fn kv_has_ink(stripped: Seq<u8>) -> bool {
    match kv_candidate(stripped) {
        Option::Some(v) => has_ink(v),
        Option::None => true,
    }
}

/// `kv_has_ink` holds of one raw line.
pub open spec fn line_kv_ink(line: Seq<u8>) -> bool {
    let l = trim(line);
    l.len() == 0 || kv_has_ink(trim(drop_decor(l)))
}

/// `line_kv_ink` holds of every line of the text, scanned as `line_scan`
/// does.
pub open spec fn lines_kv_ink(text: Seq<u8>, cur: Seq<u8>) -> bool
    decreases text.len(),
{
    if text.len() == 0 {
        line_kv_ink(cur)
    } else if text[0] == 10 {
        line_kv_ink(cur) && lines_kv_ink(text.drop_first(), seq![])
    } else {
        lines_kv_ink(text.drop_first(), cur.push(text[0]))
    }
}

/// No line of the text makes the key-value rule yield a whitespace-only
/// candidate (such as a line whose value is a quoted blank, `cable: " "`).
pub open spec fn no_blank_kv(text: Seq<u8>) -> bool {
    lines_kv_ink(text, seq![])
}

proof fn lemma_dedup_props(s: Seq<Seq<u8>>)
    ensures
        dedup(s).no_duplicates(),
        forall|x: Seq<u8>| #[trigger] dedup(s).contains(x) <==> s.contains(x),
    decreases s.len(),
{
    if s.len() > 0 {
        let t = s.drop_last();
        lemma_dedup_props(t);
        let d = dedup(t);
        assert forall|x: Seq<u8>| #[trigger] s.contains(x) implies t.contains(x) || x
            == s.last() by {
            let i = choose|i: int| 0 <= i < s.len() && s[i] == x;
            if i < s.len() - 1 {
                assert(t[i] == x);
                assert(t.contains(x));
            }
        }
        assert forall|x: Seq<u8>| t.contains(x) || x == s.last() implies #[trigger] s.contains(
            x,
        ) by {
            if t.contains(x) {
                let i = choose|i: int| 0 <= i < t.len() && t[i] == x;
                assert(s[i] == x);
            } else {
                assert(s[s.len() - 1] == x);
            }
        }
        if !d.contains(s.last()) {
            let p = d.push(s.last());
            assert forall|i: int, j: int|
                0 <= i < p.len() && 0 <= j < p.len() && i != j implies p[i] != p[j] by {
                if i < d.len() && j < d.len() {
                    assert(p[i] == d[i] && p[j] == d[j]);
                } else if j == d.len() && i < d.len() {
                    if d[i] == s.last() {
                        assert(d.contains(s.last()));
                    }
                } else if i == d.len() && j < d.len() {
                    if d[j] == s.last() {
                        assert(d.contains(s.last()));
                    }
                }
            }
            assert forall|x: Seq<u8>| #[trigger] p.contains(x) implies d.contains(x) || x
                == s.last() by {
                let i = choose|i: int| 0 <= i < p.len() && p[i] == x;
                if i < d.len() {
                    assert(d[i] == x);
                    assert(d.contains(x));
                }
            }
            assert forall|x: Seq<u8>| d.contains(x) || x == s.last() implies #[trigger] p.contains(
                x,
            ) by {
                if d.contains(x) {
                    let i = choose|i: int| 0 <= i < d.len() && d[i] == x;
                    assert(p[i] == x);
                } else {
                    assert(p[p.len() - 1] == x);
                }
            }
        }
    }
}

proof fn lemma_keyword_ink(v: Seq<u8>)
    requires
        keyword_ok(v),
    ensures
        has_ink(v),
        v.len() > 0,
{
    if contains_pat(lower_seq(v), kw_cable()) {
        let i = choose|i: int| contains_at(lower_seq(v), i, kw_cable());
        assert(lower_seq(v).subrange(i, i + 5)[0] == lower_seq(v)[i]);
        assert(lower_seq(v)[i] == 99);
        assert(lower(v[i]) == 99);
        assert(!is_space(v[i]));
    } else {
        let i = choose|i: int| contains_at(lower_seq(v), i, kw_gowin());
        assert(lower_seq(v).subrange(i, i + 5)[0] == lower_seq(v)[i]);
        assert(lower_seq(v)[i] == 103);
        assert(lower(v[i]) == 103);
        assert(!is_space(v[i]));
    }
}

proof fn lemma_phrase_ink(stripped: Seq<u8>)
    requires
        contains_pat(lower_seq(stripped), kw_phrase()),
    ensures
        has_ink(stripped),
        stripped.len() > 0,
{
    let i = choose|i: int| contains_at(lower_seq(stripped), i, kw_phrase());
    assert(lower_seq(stripped).subrange(i, i + 15)[0] == lower_seq(stripped)[i]);
    assert(lower_seq(stripped)[i] == 103);
    assert(lower(stripped[i]) == 103);
    assert(!is_space(stripped[i]));
}

proof fn lemma_quote_scan_ink(s: Seq<u8>, cur: Option<Seq<u8>>)
    ensures
        forall|k: int|
            0 <= k < quote_scan(s, cur).len() ==> has_ink(#[trigger] quote_scan(s, cur)[k])
                && quote_scan(s, cur)[k].len() > 0,
    decreases s.len(),
{
    if s.len() > 0 {
        let rest = s.drop_first();
        match cur {
            Option::None => {
                if s[0] == 34 {
                    lemma_quote_scan_ink(rest, Option::Some(seq![]));
                    assert(quote_scan(s, cur) == quote_scan(rest, Option::Some(seq![])));
                } else {
                    lemma_quote_scan_ink(rest, Option::None);
                    assert(quote_scan(s, cur) == quote_scan(rest, Option::None));
                }
            },
            Option::Some(tok) => {
                if s[0] == 34 {
                    lemma_quote_scan_ink(rest, Option::None);
                    let v = trim(tok);
                    if keyword_ok(v) {
                        lemma_keyword_ink(v);
                        assert(quote_scan(s, cur) == seq![v] + quote_scan(rest, Option::None));
                        assert forall|k: int| 0 <= k < quote_scan(s, cur).len() implies has_ink(
                            #[trigger] quote_scan(s, cur)[k],
                        ) && quote_scan(s, cur)[k].len() > 0 by {
                            if k > 0 {
                                assert(quote_scan(s, cur)[k] == quote_scan(rest, Option::None)[k
                                    - 1]);
                            }
                        }
                    } else {
                        assert(quote_scan(s, cur) == quote_scan(rest, Option::None));
                    }
                } else {
                    lemma_quote_scan_ink(rest, Option::Some(tok.push(s[0])));
                    assert(quote_scan(s, cur) == quote_scan(rest, Option::Some(tok.push(s[0]))));
                }
            },
        }
    }
}

proof fn lemma_line_candidates_ink(line: Seq<u8>)
    ensures
        forall|k: int|
            0 <= k < line_candidates(line).len() ==> (#[trigger] line_candidates(line)[k]).len()
                > 0,
        line_kv_ink(line) ==> forall|k: int|
            0 <= k < line_candidates(line).len() ==> has_ink(#[trigger] line_candidates(line)[k]),
{
    let l = trim(line);
    if l.len() > 0 {
        let stripped = trim(drop_decor(l));
        let qc = quoted_candidates(stripped);
        let pc = opt_seq(phrase_candidate(stripped));
        let kc = opt_seq(kv_candidate(stripped));
        lemma_quote_scan_ink(stripped, Option::None);
        assert forall|k: int| 0 <= k < line_candidates(line).len() implies (
        #[trigger] line_candidates(line)[k]).len() > 0 && (line_kv_ink(line) ==> has_ink(
            line_candidates(line)[k],
        )) by {
            if k < qc.len() {
                assert(line_candidates(line)[k] == qc[k]);
            } else if k < qc.len() + pc.len() {
                assert(line_candidates(line)[k] == pc[k - qc.len()]);
                assert(pc[0] == stripped);
                lemma_phrase_ink(stripped);
            } else {
                assert(line_candidates(line)[k] == kc[k - qc.len() - pc.len()]);
                assert(kc[0] == kv_candidate(stripped).unwrap());
            }
        }
    }
}

proof fn lemma_line_scan_ink(text: Seq<u8>, cur: Seq<u8>)
    ensures
        forall|k: int|
            0 <= k < line_scan(text, cur).len() ==> (#[trigger] line_scan(text, cur)[k]).len() > 0,
        lines_kv_ink(text, cur) ==> forall|k: int|
            0 <= k < line_scan(text, cur).len() ==> has_ink(#[trigger] line_scan(text, cur)[k]),
    decreases text.len(),
{
    if text.len() == 0 {
        lemma_line_candidates_ink(cur);
        assert(line_scan(text, cur) == line_candidates(cur));
        assert(lines_kv_ink(text, cur) == line_kv_ink(cur));
    } else if text[0] == 10 {
        lemma_line_candidates_ink(cur);
        lemma_line_scan_ink(text.drop_first(), seq![]);
        let a = line_candidates(cur);
        let b = line_scan(text.drop_first(), seq![]);
        assert(line_scan(text, cur) == a + b);
        assert(lines_kv_ink(text, cur) == (line_kv_ink(cur) && lines_kv_ink(
            text.drop_first(),
            seq![],
        )));
        assert forall|k: int| 0 <= k < line_scan(text, cur).len() implies (#[trigger] line_scan(
            text,
            cur,
        )[k]).len() > 0 && (lines_kv_ink(text, cur) ==> has_ink(line_scan(text, cur)[k])) by {
            if k < a.len() {
                assert(line_scan(text, cur)[k] == a[k]);
            } else {
                assert(line_scan(text, cur)[k] == b[k - a.len()]);
            }
        }
    } else {
        lemma_line_scan_ink(text.drop_first(), cur.push(text[0]));
        assert(line_scan(text, cur) == line_scan(text.drop_first(), cur.push(text[0])));
        assert(lines_kv_ink(text, cur) == lines_kv_ink(text.drop_first(), cur.push(text[0])));
    }
}

/// The extractor never reports the same name twice: its result, in
/// first-seen order, has no duplicates.
pub proof fn lemma_parse_cables_no_duplicates(text: Seq<u8>)
    ensures
        parse_cables(text).no_duplicates(),
{
    lemma_dedup_props(raw_candidates(text));
}

/// Every name the extractor reports is non-empty.
pub proof fn lemma_parse_cables_names_nonempty(text: Seq<u8>)
    ensures
        forall|k: int|
            0 <= k < parse_cables(text).len() ==> (#[trigger] parse_cables(text)[k]).len() > 0,
{
    lemma_dedup_props(raw_candidates(text));
    lemma_line_scan_ink(text, seq![]);
    assert forall|k: int| 0 <= k < parse_cables(text).len() implies (#[trigger] parse_cables(
        text,
    )[k]).len() > 0 by {
        assert(parse_cables(text).contains(parse_cables(text)[k]));
        assert(raw_candidates(text).contains(parse_cables(text)[k]));
        let i = choose|i: int|
            0 <= i < raw_candidates(text).len() && raw_candidates(text)[i] == parse_cables(
                text,
            )[k];
    }
}

/// On any text where the key-value rule never yields a whitespace-only
/// candidate, no reported name consists only of whitespace. (The quoted-token
/// and literal-phrase rules can never yield one, since their candidates
/// contain a keyword letter.)
pub proof fn lemma_parse_cables_names_have_ink(text: Seq<u8>)
    requires
        no_blank_kv(text),
    ensures
        forall|k: int|
            0 <= k < parse_cables(text).len() ==> has_ink(#[trigger] parse_cables(text)[k]),
{
    lemma_dedup_props(raw_candidates(text));
    lemma_line_scan_ink(text, seq![]);
    assert forall|k: int| 0 <= k < parse_cables(text).len() implies has_ink(
        #[trigger] parse_cables(text)[k],
    ) by {
        assert(parse_cables(text).contains(parse_cables(text)[k]));
        assert(raw_candidates(text).contains(parse_cables(text)[k]));
        let i = choose|i: int|
            0 <= i < raw_candidates(text).len() && raw_candidates(text)[i] == parse_cables(
                text,
            )[k];
    }
}

proof fn lemma_find_byte_is(s: Seq<u8>, b: u8, i: int)
    requires
        0 <= i <= s.len(),
        forall|j: int| 0 <= j < i ==> s[j] != b,
        i == s.len() || s[i] == b,
    ensures
        find_byte(s, b) == i,
    decreases i,
{
    if i > 0 {
        assert(s[0] != b);
        assert forall|j: int| 0 <= j < i - 1 implies s.drop_first()[j] != b by {
            assert(s.drop_first()[j] == s[j + 1]);
        }
        if i < s.len() {
            assert(s.drop_first()[i - 1] == s[i]);
        }
        lemma_find_byte_is(s.drop_first(), b, i - 1);
    }
}

proof fn lemma_find_pat_is(s: Seq<u8>, pat: Seq<u8>, i: int)
    requires
        pat.len() > 0,
        0 <= i <= s.len(),
        forall|j: int| 0 <= j < i ==> !contains_at(s, j, pat),
        i == s.len() || contains_at(s, i, pat),
    ensures
        find_pat(s, pat) == i,
    decreases i,
{
    if i > 0 {
        assert(!contains_at(s, 0, pat));
        assert forall|j: int| 0 <= j < i - 1 implies !contains_at(s.drop_first(), j, pat) by {
            if contains_at(s.drop_first(), j, pat) {
                assert(s.subrange(j + 1, j + 1 + pat.len() as int) =~= s.drop_first().subrange(
                    j,
                    j + pat.len() as int,
                ));
                assert(contains_at(s, j + 1, pat));
            }
        }
        if i < s.len() && contains_at(s, i, pat) {
            assert(s.drop_first().subrange(i - 1, i - 1 + pat.len() as int) =~= s.subrange(
                i,
                i + pat.len() as int,
            ));
            assert(contains_at(s.drop_first(), i - 1, pat));
        }
        lemma_find_pat_is(s.drop_first(), pat, i - 1);
    }
}

proof fn lemma_dedup_push(s: Seq<Seq<u8>>, v: Seq<u8>)
    ensures
        dedup(s.push(v)) == if dedup(s).contains(v) {
            dedup(s)
        } else {
            dedup(s).push(v)
        },
{
    assert(s.push(v).drop_last() =~= s);
    assert(s.push(v).last() == v);
}

/// Executable test for ASCII whitespace.
fn space(b: u8) -> (r: bool)
    ensures
        r == is_space(b),
{
    b == 32 || b == 9 || b == 10 || b == 13 || b == 11 || b == 12
}

/// Executable test for list-decoration bytes.
fn decor(b: u8) -> (r: bool)
    ensures
        r == is_decor(b),
{
    (48 <= b && b <= 57) || b == 91 || b == 93 || b == 46 || b == 41 || b == 45 || space(b)
}

/// Executable ASCII lower-casing of one byte.
fn lower_byte(b: u8) -> (r: u8)
    ensures
        r == lower(b),
{
    if 65 <= b && b <= 90 {
        b + 32
    } else {
        b
    }
}

/// Lower-cased copy of a byte string.
fn lower_bytes(s: &[u8]) -> (r: Vec<u8>)
    ensures
        r@ == lower_seq(s@),
{
    let mut r: Vec<u8> = Vec::new();
    let mut k: usize = 0;
    while k < s.len()
        invariant
            0 <= k <= s@.len(),
            r@ == lower_seq(s@.take(k as int)),
        decreases s@.len() - k,
    {
        let b = lower_byte(s[k]);
        r.push(b);
        proof {
            assert(s@.take(k + 1).map_values(|x: u8| lower(x)) =~= s@.take(k as int).map_values(
                |x: u8| lower(x),
            ).push(lower(s@[k as int])));
        }
        k += 1;
    }
    proof {
        assert(s@.take(s@.len() as int) =~= s@);
    }
    r
}

/// Copy of the byte range `[from, to)` of `s`.
fn sub_bytes(s: &[u8], from: usize, to: usize) -> (r: Vec<u8>)
    requires
        from <= to <= s@.len(),
    ensures
        r@ == s@.subrange(from as int, to as int),
{
    let mut r: Vec<u8> = Vec::new();
    let mut k: usize = from;
    while k < to
        invariant
            from <= k <= to <= s@.len(),
            r@ == s@.subrange(from as int, k as int),
        decreases to - k,
    {
        r.push(s[k]);
        proof {
            assert(s@.subrange(from as int, k + 1) =~= s@.subrange(from as int, k as int).push(
                s@[k as int],
            ));
        }
        k += 1;
    }
    r
}

/// Byte-string equality.
fn bytes_eq(a: &[u8], b: &[u8]) -> (r: bool)
    ensures
        r == (a@ == b@),
{
    if a.len() != b.len() {
        return false;
    }
    let mut k: usize = 0;
    while k < a.len()
        invariant
            a@.len() == b@.len(),
            0 <= k <= a@.len(),
            forall|j: int| 0 <= j < k ==> a@[j] == b@[j],
        decreases a@.len() - k,
    {
        if a[k] != b[k] {
            return false;
        }
        k += 1;
    }
    proof {
        assert(a@ =~= b@);
    }
    true
}

/// Whether `pat` occurs in `hay` starting at `i`.
fn match_at(hay: &[u8], pat: &[u8], i: usize) -> (r: bool)
    requires
        i + pat@.len() <= hay@.len(),
    ensures
        r == contains_at(hay@, i as int, pat@),
{
    let n = hay.len();
    let mut k: usize = 0;
    while k < pat.len()
        invariant
            n == hay@.len(),
            i + pat@.len() <= n,
            0 <= k <= pat@.len(),
            forall|j: int| 0 <= j < k ==> hay@[i + j] == pat@[j],
        decreases pat@.len() - k,
    {
        if hay[i + k] != pat[k] {
            proof {
                if contains_at(hay@, i as int, pat@) {
                    assert(hay@.subrange(i as int, i + pat@.len() as int)[k as int] == pat@[
                        k as int
                    ]);
                }
            }
            return false;
        }
        k += 1;
    }
    proof {
        assert(hay@.subrange(i as int, i + pat@.len() as int) =~= pat@);
    }
    true
}

/// First occurrence of `pat` in `hay`: returns whether it occurs and, when it
/// does, the index of its first occurrence.
fn find_pat_exec(hay: &[u8], pat: &[u8]) -> (res: (usize, bool))
    requires
        pat@.len() > 0,
    ensures
        res.1 == contains_pat(hay@, pat@),
        res.1 ==> res.0 == find_pat(hay@, pat@) && contains_at(hay@, res.0 as int, pat@)
            && res.0 + pat@.len() <= hay@.len(),
{
    if pat.len() > hay.len() {
        return (0, false);
    }
    let mut i: usize = 0;
    while i <= hay.len() - pat.len()
        invariant
            pat@.len() > 0,
            pat@.len() <= hay@.len(),
            0 <= i <= hay@.len() - pat@.len() + 1,
            forall|j: int| 0 <= j < i ==> !contains_at(hay@, j, pat@),
        decreases hay@.len() - pat@.len() + 1 - i,
    {
        if match_at(hay, pat, i) {
            proof {
                lemma_find_pat_is(hay@, pat@, i as int);
            }
            return (i, true);
        }
        i += 1;
    }
    (0, false)
}

/// The views of a sequence of byte vectors.
pub open spec fn views(s: Seq<Vec<u8>>) -> Seq<Seq<u8>> {
    s.map_values(|x: Vec<u8>| x@)
}

/// Whitespace trimmed from both ends of a byte string.
fn trim_bytes(s: &[u8]) -> (r: Vec<u8>)
    ensures
        r@ == trim(s@),
{
    let n = s.len();
    proof {
        assert(s@.subrange(0, n as int) =~= s@);
    }
    let mut i: usize = 0;
    while i < n && space(s[i])
        invariant
            n == s@.len(),
            0 <= i <= n,
            trim_start(s@) == trim_start(s@.subrange(i as int, n as int)),
        decreases n - i,
    {
        proof {
            assert(s@.subrange(i as int, n as int).drop_first() =~= s@.subrange(
                i + 1,
                n as int,
            ));
        }
        i += 1;
    }
    proof {
        assert(trim_start(s@.subrange(i as int, n as int)) == s@.subrange(i as int, n as int));
    }
    let mut j: usize = n;
    while j > i && space(s[j - 1])
        invariant
            n == s@.len(),
            i <= j <= n,
            trim_end(s@.subrange(i as int, n as int)) == trim_end(s@.subrange(i as int, j as int)),
        decreases j,
    {
        proof {
            assert(s@.subrange(i as int, j as int).drop_last() =~= s@.subrange(
                i as int,
                j - 1,
            ));
        }
        j -= 1;
    }
    proof {
        assert(trim_end(s@.subrange(i as int, j as int)) == s@.subrange(i as int, j as int));
    }
    sub_bytes(s, i, j)
}

/// List decoration dropped from the front of a byte string.
fn drop_decor_bytes(s: &[u8]) -> (r: Vec<u8>)
    ensures
        r@ == drop_decor(s@),
{
    let n = s.len();
    proof {
        assert(s@.subrange(0, n as int) =~= s@);
    }
    let mut i: usize = 0;
    while i < n && decor(s[i])
        invariant
            n == s@.len(),
            0 <= i <= n,
            drop_decor(s@) == drop_decor(s@.subrange(i as int, n as int)),
        decreases n - i,
    {
        proof {
            assert(s@.subrange(i as int, n as int).drop_first() =~= s@.subrange(
                i + 1,
                n as int,
            ));
        }
        i += 1;
    }
    proof {
        assert(drop_decor(s@.subrange(i as int, n as int)) == s@.subrange(i as int, n as int));
    }
    sub_bytes(s, i, n)
}

/// Double quotes stripped from both ends of a byte string.
fn trim_quotes_bytes(s: &[u8]) -> (r: Vec<u8>)
    ensures
        r@ == trim_quotes(s@),
{
    let n = s.len();
    proof {
        assert(s@.subrange(0, n as int) =~= s@);
    }
    let mut i: usize = 0;
    while i < n && s[i] == 34
        invariant
            n == s@.len(),
            0 <= i <= n,
            drop_quotes_start(s@) == drop_quotes_start(s@.subrange(i as int, n as int)),
        decreases n - i,
    {
        proof {
            assert(s@.subrange(i as int, n as int).drop_first() =~= s@.subrange(
                i + 1,
                n as int,
            ));
        }
        i += 1;
    }
    proof {
        assert(drop_quotes_start(s@.subrange(i as int, n as int)) == s@.subrange(
            i as int,
            n as int,
        ));
    }
    let mut j: usize = n;
    while j > i && s[j - 1] == 34
        invariant
            n == s@.len(),
            i <= j <= n,
            drop_quotes_end(s@.subrange(i as int, n as int)) == drop_quotes_end(
                s@.subrange(i as int, j as int),
            ),
        decreases j,
    {
        proof {
            assert(s@.subrange(i as int, j as int).drop_last() =~= s@.subrange(
                i as int,
                j - 1,
            ));
        }
        j -= 1;
    }
    proof {
        assert(drop_quotes_end(s@.subrange(i as int, j as int)) == s@.subrange(
            i as int,
            j as int,
        ));
    }
    sub_bytes(s, i, j)
}

/// The keyword `cable` as a byte vector.
fn kw_cable_vec() -> (v: Vec<u8>)
    ensures
        v@ == kw_cable(),
{
    let mut v: Vec<u8> = Vec::new();
    v.push(99);
    v.push(97);
    v.push(98);
    v.push(108);
    v.push(101);
    proof {
        assert(v@ =~= kw_cable());
    }
    v
}

/// The keyword `gowin` as a byte vector.
fn kw_gowin_vec() -> (v: Vec<u8>)
    ensures
        v@ == kw_gowin(),
{
    let mut v: Vec<u8> = Vec::new();
    v.push(103);
    v.push(111);
    v.push(119);
    v.push(105);
    v.push(110);
    proof {
        assert(v@ =~= kw_gowin());
    }
    v
}

/// The phrase `gowin usb cable` as a byte vector.
fn kw_phrase_vec() -> (v: Vec<u8>)
    ensures
        v@ == kw_phrase(),
{
    let mut v = kw_gowin_vec();
    v.push(32);
    v.push(117);
    v.push(115);
    v.push(98);
    v.push(32);
    v.push(99);
    v.push(97);
    v.push(98);
    v.push(108);
    v.push(101);
    proof {
        assert(v@ =~= kw_phrase());
    }
    v
}

/// Whether a candidate's lower-cased form mentions `cable` or `gowin`.
fn keyword_ok_exec(v: &[u8]) -> (r: bool)
    ensures
        r == keyword_ok(v@),
{
    let low = lower_bytes(v);
    let kc = kw_cable_vec();
    let (_, has_cable) = find_pat_exec(low.as_slice(), kc.as_slice());
    if has_cable {
        return true;
    }
    let kg = kw_gowin_vec();
    let (_, has_gowin) = find_pat_exec(low.as_slice(), kg.as_slice());
    has_gowin
}

/// Whether `v` is already among the collected names.
fn contains_name(found: &Vec<Vec<u8>>, v: &[u8]) -> (r: bool)
    ensures
        r == views(found@).contains(v@),
{
    let mut k: usize = 0;
    while k < found.len()
        invariant
            0 <= k <= found@.len(),
            forall|j: int| 0 <= j < k ==> found@[j]@ != v@,
        decreases found@.len() - k,
    {
        if bytes_eq(found[k].as_slice(), v) {
            proof {
                assert(views(found@)[k as int] == v@);
            }
            return true;
        }
        k += 1;
    }
    proof {
        if views(found@).contains(v@) {
            let j = choose|j: int| 0 <= j < views(found@).len() && views(found@)[j] == v@;
            assert(found@[j]@ == v@);
        }
    }
    false
}

/// Appends `v` to the collected names unless it was already seen.
fn push_candidate(found: &mut Vec<Vec<u8>>, v: Vec<u8>, Ghost(raw): Ghost<Seq<Seq<u8>>>)
    requires
        views(old(found)@) == dedup(raw),
    ensures
        views(final(found)@) == dedup(raw.push(v@)),
{
    proof {
        lemma_dedup_push(raw, v@);
    }
    if !contains_name(found, v.as_slice()) {
        let ghost pre = found@;
        found.push(v);
        proof {
            assert(views(found@) =~= views(pre).push(found@.last()@));
        }
    }
}

/// First index of byte `b` in `s`, or the length of `s` when `b` is absent.
fn find_byte_exec(s: &[u8], b: u8) -> (r: usize)
    ensures
        r == find_byte(s@, b),
        r <= s@.len(),
        r < s@.len() ==> s@[r as int] == b,
{
    let mut i: usize = 0;
    while i < s.len()
        invariant
            0 <= i <= s@.len(),
            forall|j: int| 0 <= j < i ==> s@[j] != b,
        decreases s@.len() - i,
    {
        if s[i] == b {
            proof {
                lemma_find_byte_is(s@, b, i as int);
            }
            return i;
        }
        i += 1;
    }
    proof {
        lemma_find_byte_is(s@, b, s@.len() as int);
    }
    s.len()
}

/// The scanner state of the quoted-token rule: the token content read so
/// far, when inside an open quote.
spec fn cur_of(in_tok: bool, t: Seq<u8>) -> Option<Seq<u8>> {
    if in_tok {
        Option::Some(t)
    } else {
        Option::None
    }
}

/// Collects the candidates of one raw line into `found`, deduplicated
/// against everything collected before (`raw` is the candidate stream
/// already processed).
fn line_push(found: &mut Vec<Vec<u8>>, line: &[u8], Ghost(raw): Ghost<Seq<Seq<u8>>>)
    requires
        views(old(found)@) == dedup(raw),
    ensures
        views(final(found)@) == dedup(raw + line_candidates(line@)),
{
    let l = trim_bytes(line);
    if l.len() == 0 {
        proof {
            assert(raw + line_candidates(line@) =~= raw);
        }
        return;
    }
    let d = drop_decor_bytes(l.as_slice());
    let stripped = trim_bytes(d.as_slice());
    let ghost mut acc: Seq<Seq<u8>> = raw;

    // Quoted-token rule: scan for "..." spans.
    let n = stripped.len();
    proof {
        assert(stripped@.subrange(0, n as int) =~= stripped@);
    }
    let mut i: usize = 0;
    let mut in_tok = false;
    let mut tok: Vec<u8> = Vec::new();
    while i < n
        invariant
            n == stripped@.len(),
            0 <= i <= n,
            views(found@) == dedup(acc),
            raw + quoted_candidates(stripped@) == acc + quote_scan(
                stripped@.subrange(i as int, n as int),
                cur_of(in_tok, tok@),
            ),
        decreases n - i,
    {
        let ghost sub_i = stripped@.subrange(i as int, n as int);
        let ghost sub_i1 = stripped@.subrange(i + 1, n as int);
        proof {
            assert(sub_i.drop_first() =~= sub_i1);
            assert(sub_i[0] == stripped@[i as int]);
        }
        let b = stripped[i];
        if b == 34 {
            if !in_tok {
                in_tok = true;
                tok = Vec::new();
            } else {
                let v = trim_bytes(tok.as_slice());
                let ghost q1 = quote_scan(sub_i1, Option::None);
                if keyword_ok_exec(v.as_slice()) {
                    let ghost acc0 = acc;
                    push_candidate(found, v, Ghost(acc));
                    proof {
                        acc = acc.push(trim(tok@));
                        assert(acc0 + (seq![trim(tok@)] + q1) =~= acc + q1);
                    }
                }
                in_tok = false;
            }
        } else {
            if in_tok {
                tok.push(b);
            }
        }
        i += 1;
    }
    proof {
        assert(stripped@.subrange(n as int, n as int) =~= Seq::<u8>::empty());
        assert(quote_scan(Seq::<u8>::empty(), cur_of(in_tok, tok@)) =~= Seq::<Seq<u8>>::empty());
        assert(acc + Seq::<Seq<u8>>::empty() =~= acc);
        assert(acc == raw + quoted_candidates(stripped@));
    }
    let ghost acc_q = acc;

    // Literal-phrase rule: the whole stripped line.
    let low = lower_bytes(stripped.as_slice());
    let ph = kw_phrase_vec();
    let (_, has_phrase) = find_pat_exec(low.as_slice(), ph.as_slice());
    if has_phrase {
        let copy = sub_bytes(stripped.as_slice(), 0, stripped.len());
        proof {
            assert(copy@ =~= stripped@);
        }
        push_candidate(found, copy, Ghost(acc));
        proof {
            acc = acc.push(stripped@);
        }
    }
    proof {
        assert(acc =~= acc_q + opt_seq(phrase_candidate(stripped@)));
    }
    let ghost acc_p = acc;

    // Key-value rule: the text after the first `:` or `=` from `cable` on.
    let kc = kw_cable_vec();
    let (idx, found_kw) = find_pat_exec(low.as_slice(), kc.as_slice());
    proof {
        assert(lower_seq(stripped@).len() == stripped@.len());
    }
    if found_kw {
        let tail = sub_bytes(stripped.as_slice(), idx, stripped.len());
        let posc = find_byte_exec(tail.as_slice(), 58);
        let pose = find_byte_exec(tail.as_slice(), 61);
        if posc < tail.len() || pose < tail.len() {
            let pos = if posc < tail.len() {
                posc
            } else {
                pose
            };
            let t1 = sub_bytes(tail.as_slice(), pos + 1, tail.len());
            let t2 = trim_bytes(t1.as_slice());
            let v = trim_quotes_bytes(t2.as_slice());
            if v.len() > 0 {
                proof {
                    assert(opt_seq(kv_candidate(stripped@)) =~= seq![v@]);
                }
                push_candidate(found, v, Ghost(acc));
                proof {
                    acc = acc.push(kv_candidate(stripped@).unwrap());
                }
            }
        }
    }
    proof {
        assert(acc =~= acc_p + opt_seq(kv_candidate(stripped@)));
        assert(acc =~= raw + line_candidates(line@));
    }
}

/// Scans free-form toolchain output for byte strings that look like a
/// hardware cable identifier and returns the distinct candidates in
/// first-seen order.
pub fn parse_cable_names(text: &[u8]) -> (r: Vec<Vec<u8>>)
    ensures
        views(r@) == parse_cables(text@),
{
    let mut found: Vec<Vec<u8>> = Vec::new();
    let ghost mut done: Seq<Seq<u8>> = seq![];
    let mut cur: Vec<u8> = Vec::new();
    let n = text.len();
    proof {
        assert(views(found@) =~= dedup(done));
        assert(text@.subrange(0, n as int) =~= text@);
        assert(done + line_scan(text@, seq![]) =~= line_scan(text@, seq![]));
    }
    let mut i: usize = 0;
    while i < n
        invariant
            n == text@.len(),
            0 <= i <= n,
            views(found@) == dedup(done),
            raw_candidates(text@) == done + line_scan(
                text@.subrange(i as int, n as int),
                cur@,
            ),
        decreases n - i,
    {
        let ghost sub_i = text@.subrange(i as int, n as int);
        let ghost sub_i1 = text@.subrange(i + 1, n as int);
        proof {
            assert(sub_i.drop_first() =~= sub_i1);
            assert(sub_i[0] == text@[i as int]);
        }
        let b = text[i];
        if b == 10 {
            let ghost done0 = done;
            line_push(&mut found, cur.as_slice(), Ghost(done));
            proof {
                done = done + line_candidates(cur@);
                assert(done0 + (line_candidates(cur@) + line_scan(sub_i1, seq![])) =~= done
                    + line_scan(sub_i1, seq![]));
            }
            cur = Vec::new();
        } else {
            cur.push(b);
        }
        i += 1;
    }
    proof {
        assert(text@.subrange(n as int, n as int) =~= Seq::<u8>::empty());
    }
    line_push(&mut found, cur.as_slice(), Ghost(done));
    proof {
        assert(done + line_candidates(cur@) =~= raw_candidates(text@));
    }
    found
}

} // verus!
