//! Search of a user's files and folders by name.

use vstd::prelude::*;
use crate::paths::{under_uploads, under_uploads_path};
use crate::plan::{Step, StepView};
use crate::query::{param, param_or_empty};
use crate::reply::{Body, BodyView, JsonValue, JsonValueView, Reply, ReplyView, Status, json_reply, strings_view};
use crate::strmap::StrMap;
use crate::text::{is_space, lemma_trimmed_is_slice, lemma_trimmed_map, lemma_trimmed_occurrence, lemma_trimmed_padded, trimmed};

verus! {

/// What `str::to_lowercase` gives for `s`.
pub uninterp spec fn lowercase_of(s: Seq<char>) -> Seq<char>;

/// Whether every character of `s` is ASCII.
pub open spec fn is_ascii_text(s: Seq<char>) -> bool {
    forall|i: int| 0 <= i < s.len() ==> (#[trigger] s[i] as u32) < 128
}

/// The ASCII lower case of `c`: `A`..`Z` become `a`..`z`, the rest stay.
pub open spec fn ascii_lower_char(c: char) -> char {
    if 'A' <= c <= 'Z' {
        ((c as u32) + 32) as char
    } else {
        c
    }
}

/// The ASCII upper case of `c`: `a`..`z` become `A`..`Z`, the rest stay.
pub open spec fn ascii_upper_char(c: char) -> char {
    if 'a' <= c <= 'z' {
        ((c as u32) - 32) as char
    } else {
        c
    }
}

/// `s` in ASCII lower case.
pub open spec fn ascii_lower(s: Seq<char>) -> Seq<char> {
    s.map_values(|c: char| ascii_lower_char(c))
}

/// `s` in ASCII upper case.
pub open spec fn ascii_upper(s: Seq<char>) -> Seq<char> {
    s.map_values(|c: char| ascii_upper_char(c))
}

/// `s.to_lowercase()`; which characters it gives is left to the name
/// `lowercase_of`, except for ASCII text: `to_lowercase` applies Unicode's
/// lower case mapping, which takes `A`..`Z` to `a`..`z` and leaves every
/// other ASCII character as it is.
#[verifier::external_body]
pub fn to_lowercase(s: &str) -> (r: String)
    ensures
        r@ == lowercase_of(s@),
        is_ascii_text(s@) ==> r@ == ascii_lower(s@),
{
    s.to_lowercase()
}

/// Whether `needle` occurs in `hay` as a run of characters.
pub open spec fn contains_text(hay: Seq<char>, needle: Seq<char>) -> bool {
    exists|i: int| 0 <= i <= hay.len() - needle.len() && #[trigger] hay.subrange(i, i + needle.len()) == needle
}

/// The characters of `s`.
fn chars_of(s: &str) -> (v: Vec<char>)
    ensures
        v@ == s@,
{
    let n: usize = s.unicode_len();
    let mut v: Vec<char> = Vec::new();
    let mut i: usize = 0;
    while i < n
        invariant
            n == s@.len(),
            i <= n,
            v@ =~= s@.take(i as int),
        decreases n - i,
    {
        v.push(s.get_char(i));
        i = i + 1;
    }
    assert(s@.take(n as int) =~= s@);
    v
}

/// Whether `needle` occurs in `hay`, as `str::contains` decides it.
pub fn contains(hay: &str, needle: &str) -> (b: bool)
    ensures
        b == contains_text(hay@, needle@),
{
    let h = chars_of(hay);
    let n = chars_of(needle);
    if n.len() > h.len() {
        return false;
    }
    let mut i: usize = 0;
    while i <= h.len() - n.len()
        invariant
            h@ == hay@,
            n@ == needle@,
            n@.len() <= h@.len(),
            i <= h@.len() - n@.len() + 1,
            forall|k: int| 0 <= k < i ==> #[trigger] h@.subrange(k, k + n@.len()) != n@,
        decreases h@.len() - i,
    {
        let mut j: usize = 0;
        let mut same = true;
        while j < n.len()
            invariant
                h@ == hay@,
                i + n@.len() <= h@.len(),
                h@.len() <= usize::MAX,
                n@ == needle@,
                i + n@.len() <= h@.len(),
                j <= n@.len(),
                same == (forall|k: int| 0 <= k < j ==> h@[i + k] == n@[k]),
            decreases n@.len() - j,
        {
            if h[i + j] != n[j] {
                same = false;
            }
            j = j + 1;
        }
        if same {
            assert(h@.subrange(i as int, i + n@.len()) =~= n@);
            return true;
        }
        assert(h@.subrange(i as int, i + n@.len()) != n@) by {
            let k = choose|k: int| 0 <= k < n@.len() && h@[i + k] != n@[k];
            assert(h@.subrange(i as int, i + n@.len())[k] == h@[i + k]);
        }
        i = i + 1;
    }
    assert forall|k: int| 0 <= k <= h@.len() - n@.len() implies #[trigger] h@.subrange(
        k,
        k + n@.len(),
    ) != n@ by {}
    false
}

/// What a search finds for the query `q`: where the user's directory must
/// exist, its path, and the search term.
#[derive(Debug)]
pub struct SearchProbe {
    pub steps: Vec<Step>,
    pub root: String,
    pub term: String,
}

/// `search_files_and_folders` for the query `q`: both `email` and `query`
/// are required, and the user's directory must exist before it is walked.
pub fn search_files_and_folders(q: &StrMap) -> (r: Result<SearchProbe, Reply>)
    ensures
        ({
            let email = param(q@, "email"@);
            let term = param(q@, "query"@);
            match r {
                Err(reply) => (email.len() == 0 || term.len() == 0) && reply@ == json_reply(
                    Status::BadRequest,
                    "error"@,
                    "❌ Required: email and query parameters"@,
                ),
                Ok(probe) => email.len() > 0 && term.len() > 0 && probe.root@ == under_uploads(
                    email,
                ) && probe.term@ == term && probe.steps@.map_values(|s: Step| s@) == seq![
                    StepView::Exists {
                        path: under_uploads(email),
                        expected: true,
                        otherwise: json_reply(
                            Status::NotFound,
                            "error"@,
                            "❌ User folder not found"@,
                        ),
                    },
                ],
            }
        }),
{
    let email = param_or_empty(q, "email");
    let term = param_or_empty(q, "query");
    if email.as_str().is_empty() || term.as_str().is_empty() {
        return Err(
            Reply::json_text(
                Status::BadRequest,
                "error",
                String::from_str("❌ Required: email and query parameters"),
            ),
        );
    }
    let root = under_uploads_path(email.as_str());
    let mut steps: Vec<Step> = Vec::new();
    steps.push(
        Step::Exists {
            path: root.clone(),
            expected: true,
            otherwise: Reply::json_text(
                Status::NotFound,
                "error",
                String::from_str("❌ User folder not found"),
            ),
        },
    );
    let probe = SearchProbe { steps, root, term };
    assert(probe.steps@.map_values(|s: Step| s@) =~= seq![
        StepView::Exists {
            path: under_uploads(email@),
            expected: true,
            otherwise: json_reply(Status::NotFound, "error"@, "❌ User folder not found"@),
        },
    ]);
    Ok(probe)
}

/// An entry that the walk of the user's directory found: its file name, and
/// its path relative to the user's directory where that could be taken.
#[derive(Debug)]
pub struct WalkEntry {
    pub name: String,
    pub relative: Option<String>,
}

/// The relative paths of the entries whose name, in lower case, contains
/// `wanted` (the term in lower case), in the order of the walk.
pub open spec fn matches(entries: Seq<WalkEntry>, wanted: Seq<char>) -> Seq<Seq<char>>
    decreases entries.len(),
{
    if entries.len() == 0 {
        Seq::empty()
    } else {
        let rest = matches(entries.drop_last(), wanted);
        let e = entries.last();
        if contains_text(lowercase_of(e.name@), wanted) && e.relative is Some {
            rest.push(e.relative->0@)
        } else {
            rest
        }
    }
}

/// The answer of a search for `term` over the walk `entries`.
pub open spec fn search_reply(entries: Seq<WalkEntry>, term: Seq<char>) -> ReplyView {
    search_reply_lowered(entries, lowercase_of(term))
}

/// The answer of a search for the lower case term `wanted` over the walk
/// `entries`.
pub open spec fn search_reply_lowered(entries: Seq<WalkEntry>, wanted: Seq<char>) -> ReplyView {
    let found = matches(entries, wanted);
    if found.len() == 0 {
        json_reply(Status::Success, "message"@, "🔍 No matching files or folders found"@)
    } else {
        ReplyView {
            status: Status::Success,
            body: BodyView::Json(seq![("results"@, JsonValueView::List(found))]),
        }
    }
}

/// The answer of `search_files_and_folders` once the user's directory was walked.
pub fn search_results(term: &str, entries: &Vec<WalkEntry>) -> (r: Reply)
    ensures
        r@ == search_reply(entries@, term@),
        is_ascii_text(term@) ==> r@ == search_reply_lowered(entries@, ascii_lower(term@)),
{
    let wanted = to_lowercase(term);
    let mut found: Vec<String> = Vec::new();
    let mut i: usize = 0;
    while i < entries.len()
        invariant
            i <= entries@.len(),
            wanted@ == lowercase_of(term@),
            strings_view(found@) =~= matches(entries@.take(i as int), wanted@),
        decreases entries@.len() - i,
    {
        assert(entries@.take(i + 1).drop_last() =~= entries@.take(i as int));
        assert(entries@.take(i + 1).last() == entries@[i as int]);
        let e = &entries[i];
        let name = to_lowercase(e.name.as_str());
        if contains(name.as_str(), wanted.as_str()) {
            match &e.relative {
                Some(rel) => {
                    found.push(rel.clone());
                },
                None => {},
            }
        }
        i = i + 1;
    }
    assert(entries@.take(entries@.len() as int) =~= entries@);
    if found.len() == 0 {
        Reply::json_text(
            Status::Success,
            "message",
            String::from_str("🔍 No matching files or folders found"),
        )
    } else {
        let mut members: Vec<(String, JsonValue)> = Vec::new();
        members.push((String::from_str("results"), JsonValue::List(found)));
        let r = Reply { status: Status::Success, body: Body::Json(members) };
        assert(members@.map_values(|m: (String, JsonValue)| (m.0@, m.1@)) =~= seq![
            ("results"@, JsonValueView::List(matches(entries@, wanted@))),
        ]);
        r
    }
}

proof fn lemma_ascii_char_cases(c: char)
    ensures
        is_space(ascii_upper_char(c)) == is_space(c),
        ascii_lower_char(ascii_upper_char(c)) == ascii_lower_char(c),
        (c as u32) < 128 ==> (ascii_upper_char(c) as u32) < 128,
{
    if 'a' <= c <= 'z' {
        let u = ((c as u32) - 32) as char;
        assert(u as u32 == (c as u32) - 32);
        assert('A' <= u <= 'Z');
    } else if 'A' <= c <= 'Z' {
        assert(!('a' <= c <= 'z'));
    }
}

/// Every run of characters of a text in ASCII lower case is the lower case
/// of the run it came from, so containment survives lowering.
proof fn lemma_contains_text_lower(hay: Seq<char>, needle: Seq<char>)
    requires
        contains_text(hay, needle),
    ensures
        contains_text(ascii_lower(hay), ascii_lower(needle)),
{
    let i = choose|i: int|
        0 <= i <= hay.len() - needle.len() && #[trigger] hay.subrange(i, i + needle.len())
            == needle;
    assert(ascii_lower(hay).subrange(i, i + needle.len()) =~= ascii_lower(needle));
}

proof fn lemma_contains_text_trans(a: Seq<char>, b: Seq<char>, c: Seq<char>)
    requires
        contains_text(a, b),
        contains_text(b, c),
    ensures
        contains_text(a, c),
{
    let i = choose|i: int| 0 <= i <= a.len() - b.len() && #[trigger] a.subrange(i, i + b.len()) == b;
    let j = choose|j: int| 0 <= j <= b.len() - c.len() && #[trigger] b.subrange(j, j + c.len()) == c;
    assert(a.subrange(i + j, i + j + c.len()) =~= c);
}

proof fn lemma_matches_narrower(entries: Seq<WalkEntry>, longer: Seq<char>, shorter: Seq<char>)
    requires
        contains_text(longer, shorter),
    ensures
        forall|k: int|
            0 <= k < matches(entries, longer).len() ==> matches(entries, shorter).contains(
                #[trigger] matches(entries, longer)[k],
            ),
    decreases entries.len(),
{
    if entries.len() > 0 {
        lemma_matches_narrower(entries.drop_last(), longer, shorter);
        let e = entries.last();
        let name = lowercase_of(e.name@);
        if contains_text(name, longer) {
            lemma_contains_text_trans(name, longer, shorter);
        }
        let rest_l = matches(entries.drop_last(), longer);
        let rest_s = matches(entries.drop_last(), shorter);
        assert forall|k: int| 0 <= k < matches(entries, longer).len() implies matches(
            entries,
            shorter,
        ).contains(#[trigger] matches(entries, longer)[k]) by {
            if k < rest_l.len() {
                assert(matches(entries, longer)[k] == rest_l[k]);
                let m = choose|m: int| 0 <= m < rest_s.len() && rest_s[m] == rest_l[k];
                assert(matches(entries, shorter)[m] == rest_s[m]);
            } else {
                let last = matches(entries, shorter).len() - 1;
                assert(matches(entries, shorter)[last] == e.relative->0@);
            }
        }
    }
}

/// Law: a search is blind to ASCII case and to padding. For an ASCII term
/// `t`, the term in upper case and the term between two spaces trim and
/// lower to what `t` trims and lowers to, so each search gives the same
/// answer over the same walk. (The handler trims the `query` parameter and
/// `search_results` lowers ASCII terms by `ascii_lower`.)
pub proof fn lemma_search_ignores_case_and_padding(entries: Seq<WalkEntry>, t: Seq<char>)
    requires
        is_ascii_text(t),
    ensures
        is_ascii_text(trimmed(t)),
        is_ascii_text(trimmed(ascii_upper(t))),
        is_ascii_text(trimmed(seq![' '] + t + seq![' '])),
        ascii_lower(trimmed(ascii_upper(t))) == ascii_lower(trimmed(t)),
        trimmed(seq![' '] + t + seq![' ']) == trimmed(t),
        search_reply_lowered(entries, ascii_lower(trimmed(ascii_upper(t)))) == search_reply_lowered(
            entries,
            ascii_lower(trimmed(t)),
        ),
        search_reply_lowered(entries, ascii_lower(trimmed(seq![' '] + t + seq![' '])))
            == search_reply_lowered(entries, ascii_lower(trimmed(t))),
{
    let up = |c: char| ascii_upper_char(c);
    assert forall|c: char| is_space(#[trigger] up(c)) == is_space(c) by {
        lemma_ascii_char_cases(c);
    }
    assert(ascii_upper(t) =~= t.map_values(up));
    lemma_trimmed_map(t, up);
    let tt = trimmed(t);
    lemma_trimmed_is_slice(t);
    let (a, b) = choose|a: int, b: int|
        0 <= a <= b <= t.len() && trimmed(t) == #[trigger] t.subrange(a, b) && (forall|j: int|
            0 <= j < a ==> is_space(#[trigger] t[j])) && (forall|j: int|
            b <= j < t.len() ==> is_space(#[trigger] t[j]));
    assert forall|i: int| 0 <= i < tt.len() implies (#[trigger] tt[i] as u32) < 128 by {
        assert(tt[i] == t[a + i]);
    }
    assert forall|i: int| 0 <= i < tt.len() implies ascii_lower(tt.map_values(up))[i] == #[trigger] ascii_lower(tt)[i] by {
        lemma_ascii_char_cases(tt[i]);
    }
    assert(ascii_lower(tt.map_values(up)) =~= ascii_lower(tt));
    assert forall|i: int| 0 <= i < tt.len() implies (#[trigger] tt.map_values(up)[i] as u32) < 128 by {
        lemma_ascii_char_cases(tt[i]);
    }
    lemma_trimmed_padded(t);
}

/// Law: a longer term finds no more. Where the `query` value `t2` contains
/// the `query` value `t`, and `t` is more than white space, every path that
/// a search for `t2` lists, a search for `t` over the same walk lists too.
/// The handler trims both values, and `search_results` lowers ASCII terms
/// by `ascii_lower`.
pub proof fn lemma_search_narrows(entries: Seq<WalkEntry>, t: Seq<char>, t2: Seq<char>)
    requires
        contains_text(t2, t),
        trimmed(t).len() > 0,
    ensures
        forall|p: Seq<char>|
            #[trigger] matches(entries, ascii_lower(trimmed(t2))).contains(p) ==> matches(
                entries,
                ascii_lower(trimmed(t)),
            ).contains(p),
{
    let i = choose|i: int|
        0 <= i <= t2.len() - t.len() && #[trigger] t2.subrange(i, i + t.len()) == t;
    lemma_trimmed_occurrence(t2, t, i);
    lemma_contains_text_lower(trimmed(t2), trimmed(t));
    lemma_matches_narrower(entries, ascii_lower(trimmed(t2)), ascii_lower(trimmed(t)));
}

/// Law: a search lists exactly the entries whose own name matches. Every
/// path it lists is the relative path of a walk entry whose file name, in
/// lower case, contains the lowered term; and every entry whose name does
/// and whose relative path could be taken is listed.
pub proof fn lemma_search_lists_matching_names(entries: Seq<WalkEntry>, wanted: Seq<char>)
    ensures
        forall|k: int|
            0 <= k < matches(entries, wanted).len() ==> exists|i: int|
                0 <= i < entries.len() && (#[trigger] entries[i]).relative is Some
                    && entries[i].relative->0@ == #[trigger] matches(entries, wanted)[k]
                    && contains_text(lowercase_of(entries[i].name@), wanted),
        forall|i: int|
            0 <= i < entries.len() && (#[trigger] entries[i]).relative is Some && contains_text(
                lowercase_of(entries[i].name@),
                wanted,
            ) ==> matches(entries, wanted).contains(entries[i].relative->0@),
    decreases entries.len(),
{
    if entries.len() > 0 {
        let rest = entries.drop_last();
        lemma_search_lists_matching_names(rest, wanted);
        let m = matches(entries, wanted);
        let mr = matches(rest, wanted);
        let n = entries.len() - 1;
        assert forall|k: int| 0 <= k < m.len() implies exists|i: int|
            0 <= i < entries.len() && (#[trigger] entries[i]).relative is Some
                && entries[i].relative->0@ == #[trigger] m[k] && contains_text(
                lowercase_of(entries[i].name@),
                wanted,
            ) by {
            if k < mr.len() {
                assert(m[k] == mr[k]);
                let i = choose|i: int|
                    0 <= i < rest.len() && (#[trigger] rest[i]).relative is Some
                        && rest[i].relative->0@ == #[trigger] mr[k] && contains_text(
                        lowercase_of(rest[i].name@),
                        wanted,
                    );
                assert(entries[i] == rest[i]);
            } else {
                assert(entries[n] == entries.last());
            }
        }
        assert forall|i: int|
            0 <= i < entries.len() && (#[trigger] entries[i]).relative is Some && contains_text(
                lowercase_of(entries[i].name@),
                wanted,
            ) implies m.contains(entries[i].relative->0@) by {
            if i < n {
                assert(entries[i] == rest[i]);
                assert(mr.contains(rest[i].relative->0@));
                let j = choose|j: int| 0 <= j < mr.len() && mr[j] == rest[i].relative->0@;
                assert(m[j] == mr[j]);
            } else {
                assert(entries[i] == entries.last());
                assert(m[m.len() - 1] == entries.last().relative->0@);
            }
        }
    }
}

/// Law: the answer of a search for `term` lists exactly the walk entries
/// whose own file name, in lower case, contains the term in lower case
/// (those whose relative path could be taken). Where there is such an
/// entry, the answer is 200 with the list of their relative paths; where
/// there is none, it is 200 "🔍 No matching files or folders found".
pub proof fn lemma_search_answer(entries: Seq<WalkEntry>, term: Seq<char>)
    ensures
        search_reply(entries, term).status == Status::Success,
        (exists|i: int|
            0 <= i < entries.len() && (#[trigger] entries[i]).relative is Some && contains_text(
                lowercase_of(entries[i].name@),
                lowercase_of(term),
            )) ==> exists|found: Seq<Seq<char>>|
            search_reply(entries, term).body == BodyView::Json(
                seq![("results"@, JsonValueView::List(found))],
            ) && (forall|k: int|
                0 <= k < found.len() ==> exists|i: int|
                    0 <= i < entries.len() && (#[trigger] entries[i]).relative is Some
                        && entries[i].relative->0@ == #[trigger] found[k] && contains_text(
                        lowercase_of(entries[i].name@),
                        lowercase_of(term),
                    )) && (forall|i: int|
                0 <= i < entries.len() && (#[trigger] entries[i]).relative is Some
                    && contains_text(lowercase_of(entries[i].name@), lowercase_of(term))
                    ==> found.contains(entries[i].relative->0@)),
        !(exists|i: int|
            0 <= i < entries.len() && (#[trigger] entries[i]).relative is Some && contains_text(
                lowercase_of(entries[i].name@),
                lowercase_of(term),
            )) ==> search_reply(entries, term) == json_reply(
            Status::Success,
            "message"@,
            "🔍 No matching files or folders found"@,
        ),
{
    let w = lowercase_of(term);
    lemma_search_lists_matching_names(entries, w);
    let found = matches(entries, w);
    if exists|i: int|
        0 <= i < entries.len() && (#[trigger] entries[i]).relative is Some && contains_text(
            lowercase_of(entries[i].name@),
            w,
        ) {
        let i = choose|i: int|
            0 <= i < entries.len() && (#[trigger] entries[i]).relative is Some && contains_text(
                lowercase_of(entries[i].name@),
                w,
            );
        assert(found.contains(entries[i].relative->0@));
        assert(found.len() > 0);
    } else if found.len() > 0 {
        assert(found[0] == found[0]);
    }
}

} // verus!
