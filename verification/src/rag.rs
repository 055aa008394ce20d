//! Document-store data and the chunking rule for ingestion.
//!
//! Storage and retrieval of chunks is the persistence collaborator's job;
//! this core carries the chunk values and decides how an ingested document
//! is cut into chunks: paragraphs split on blank lines, trimmed, with very
//! short chunks dropped.
use vstd::prelude::*;
use vstd::string::StrSliceExecFns;
use vstd::string::StringExecFns;

verus! {

use vstd::utf8::encode_utf8;

/// One stored chunk of an ingested document.
#[derive(Clone)]
pub struct DocumentChunk {
    pub id: i64,
    pub collection: String,
    pub filename: String,
    pub content: String,
}

/// A paragraph separator (a blank line) stands at position `j`.
pub open spec fn spec_sep_at(s: Seq<char>, j: int) -> bool {
    0 <= j && j + 2 <= s.len() && s[j] == '\n' && s[j + 1] == '\n'
}

/// The pieces of `s` between paragraph separators, leftmost separator
/// first, as a non-overlapping scan. Splitting never loses text: empty
/// pieces stand where separators touch.
pub open spec fn spec_split_paragraphs(s: Seq<char>) -> Seq<Seq<char>>
    decreases s.len(),
{
    if s.len() < 2 {
        seq![s]
    } else if s[0] == '\n' && s[1] == '\n' {
        seq![Seq::<char>::empty()] + spec_split_paragraphs(s.skip(2))
    } else {
        let rest = spec_split_paragraphs(s.drop_first());
        seq![seq![s[0]] + rest[0]] + rest.drop_first()
    }
}

/// When the first separator stands at `k`, the first piece is everything
/// before it and the rest splits on its own.
proof fn lemma_split_at_first_sep(s: Seq<char>, k: int)
    requires
        spec_sep_at(s, k),
        forall|j: int| 0 <= j < k ==> !spec_sep_at(s, j),
    ensures
        spec_split_paragraphs(s) == seq![s.take(k)] + spec_split_paragraphs(s.skip(k + 2)),
    decreases k,
{
    if k == 0 {
        assert(s.take(0) =~= Seq::<char>::empty());
        assert(spec_split_paragraphs(s) =~~= seq![s.take(0)] + spec_split_paragraphs(s.skip(2)));
    } else {
        assert(!spec_sep_at(s, 0));
        let t = s.drop_first();
        assert(spec_sep_at(t, k - 1)) by {
            assert(t[k - 1] == s[k]);
            assert(t[k] == s[k + 1]);
        }
        assert forall|j: int| 0 <= j < k - 1 implies !spec_sep_at(t, j) by {
            assert(!spec_sep_at(s, j + 1));
            assert(t[j] == s[j + 1]);
            assert(t[j + 1] == s[j + 2]);
        }
        lemma_split_at_first_sep(t, k - 1);
        let rest = spec_split_paragraphs(t);
        assert(rest[0] == t.take(k - 1));
        assert(rest.drop_first() =~= spec_split_paragraphs(t.skip(k + 1)));
        assert(seq![s[0]] + t.take(k - 1) =~= s.take(k));
        assert(t.skip(k + 1) =~= s.skip(k + 2));
        assert(spec_split_paragraphs(s) =~~= seq![s.take(k)] + spec_split_paragraphs(s.skip(k + 2)));
    }
}

/// Text without a separator is a single piece.
proof fn lemma_split_no_sep(s: Seq<char>)
    requires
        forall|j: int| !spec_sep_at(s, j),
    ensures
        spec_split_paragraphs(s) == seq![s],
    decreases s.len(),
{
    if s.len() < 2 {
    } else {
        assert(!spec_sep_at(s, 0));
        let t = s.drop_first();
        assert forall|j: int| !spec_sep_at(t, j) by {
            if 0 <= j && j + 2 <= t.len() {
                assert(!spec_sep_at(s, j + 1));
                assert(t[j] == s[j + 1]);
                assert(t[j + 1] == s[j + 2]);
            }
        }
        lemma_split_no_sep(t);
        assert(seq![s[0]] + t =~= s);
        assert(spec_split_paragraphs(s) =~~= seq![s]);
    }
}

/// Splits text into its paragraphs: the pieces between blank lines, in
/// order, nothing dropped.
pub fn split_paragraphs(content: &str) -> (r: Vec<String>)
    ensures
        r.deep_view() == spec_split_paragraphs(content@),
{
    let n = content.unicode_len();
    let mut pieces: Vec<String> = Vec::new();
    let mut start: usize = 0;
    let mut i: usize = 0;
    proof {
        assert(pieces.deep_view() =~= Seq::<Seq<char>>::empty());
        assert(content@.skip(0) =~= content@);
        assert(pieces.deep_view() + spec_split_paragraphs(content@.skip(0))
            =~~= spec_split_paragraphs(content@));
    }
    while i < n && i + 1 < n
        invariant
            n == content@.len(),
            start <= i <= n,
            pieces.deep_view() + spec_split_paragraphs(content@.skip(start as int))
                == spec_split_paragraphs(content@),
            forall|j: int| start <= j < i ==> !spec_sep_at(content@, j),
        decreases n - i,
    {
        if content.get_char(i) == '\n' && content.get_char(i + 1) == '\n' {
            let piece = String::from_str(content.substring_char(start, i));
            proof {
                let s = content@;
                let u = s.skip(start as int);
                let k = i - start;
                assert(spec_sep_at(u, k as int)) by {
                    assert(u[k as int] == s[i as int]);
                    assert(u[k as int + 1] == s[i as int + 1]);
                }
                assert forall|j: int| 0 <= j < k implies !spec_sep_at(u, j) by {
                    assert(!spec_sep_at(s, start + j));
                    assert(u[j] == s[start + j]);
                    assert(u[j + 1] == s[start + j + 1]);
                }
                lemma_split_at_first_sep(u, k as int);
                assert(u.take(k as int) =~= s.subrange(start as int, i as int));
                assert(u.skip(k as int + 2) =~= s.skip(i as int + 2));
            }
            pieces.push(piece);
            proof {
                assert(pieces.deep_view() + spec_split_paragraphs(
                    content@.skip(i as int + 2),
                ) =~~= spec_split_paragraphs(content@));
            }
            i = i + 2;
            start = i;
        } else {
            proof {
                assert(!spec_sep_at(content@, i as int));
            }
            i = i + 1;
        }
    }
    let last = String::from_str(content.substring_char(start, n));
    let ghost s = content@;
    let ghost u = s.skip(start as int);
    proof {
        assert forall|j: int| !spec_sep_at(u, j) by {
            if 0 <= j && j + 2 <= u.len() {
                assert(start + j + 2 <= n);
                assert(start + j < i);
                assert(!spec_sep_at(s, start + j));
                assert(u[j] == s[start + j]);
                assert(u[j + 1] == s[start + j + 1]);
            }
        }
        lemma_split_no_sep(u);
        assert(u =~= s.subrange(start as int, n as int));
    }
    pieces.push(last);
    proof {
        assert(pieces.deep_view() =~~= spec_split_paragraphs(s));
    }
    pieces
}

/// What `str::trim` returns: a function of the characters alone.
pub uninterp spec fn trim_of(s: Seq<char>) -> Seq<char>;

/// Relies on `str::trim`: the text with leading and trailing whitespace
/// removed, a function of the characters alone; it is never longer than
/// its input.
#[verifier::external_body]
fn trim(s: &str) -> (r: &str)
    ensures
        r@ == trim_of(s@),
        r@.len() <= s@.len(),
{
    s.trim()
}

/// Relies on `str::len`: the length of the text in bytes.
#[verifier::external_body]
fn byte_len(s: &str) -> (n: usize)
    ensures
        n == encode_utf8(s@).len(),
{
    s.len()
}

/// A trimmed piece is kept as a chunk when it is at least 10 bytes long.
pub open spec fn spec_keep(t: Seq<char>) -> bool {
    encode_utf8(t).len() >= 10
}

/// The chunks kept from the first `n` pieces: each piece trimmed, the very
/// short ones dropped, order preserved.
pub open spec fn spec_kept_prefix(pieces: Seq<Seq<char>>, n: int) -> Seq<Seq<char>>
    decreases n,
{
    if n <= 0 {
        Seq::empty()
    } else {
        spec_kept_prefix(pieces, n - 1) + if spec_keep(trim_of(pieces[n - 1])) {
            seq![trim_of(pieces[n - 1])]
        } else {
            Seq::empty()
        }
    }
}

/// The chunks an ingested document is stored as.
pub open spec fn spec_chunks(content: Seq<char>) -> Seq<Seq<char>> {
    spec_kept_prefix(
        spec_split_paragraphs(content),
        spec_split_paragraphs(content).len() as int,
    )
}

/// Cuts a document into its stored chunks: paragraphs split on blank
/// lines, each trimmed, those under 10 bytes dropped, order preserved.
pub fn chunk_content(content: &str) -> (r: Vec<String>)
    ensures
        r.deep_view() == spec_chunks(content@),
{
    let pieces = split_paragraphs(content);
    let mut out: Vec<String> = Vec::new();
    let n = pieces.len();
    let mut i: usize = 0;
    while i < n
        invariant
            n == pieces@.len(),
            i <= n,
            pieces.deep_view() == spec_split_paragraphs(content@),
            out.deep_view() == spec_kept_prefix(pieces.deep_view(), i as int),
        decreases n - i,
    {
        proof {
            assert(pieces.deep_view()[i as int] == pieces@[i as int]@);
        }
        let t = trim(pieces[i].as_str());
        if byte_len(t) >= 10 {
            out.push(String::from_str(t));
        }
        proof {
            assert(out.deep_view() =~~= spec_kept_prefix(pieces.deep_view(), i as int + 1));
        }
        i += 1;
    }
    out
}

} // verus!
