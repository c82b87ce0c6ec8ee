//! Token-bounded chunking of a plain-text document.
use vstd::prelude::*;
use crate::text::is_unicode_ws;
use vstd::string::StringSliceAdditionalSpecFns;

verus! {

#[verifier::external_type_specification]
#[verifier::external_body]
pub struct ExCoreBPE(tiktoken_rs::CoreBPE);

/// Why a document could not be chunked.
#[derive(PartialEq, Eq, Structural, Clone, Copy, Debug)]
pub enum ChunkError {
    /// The path does not name a `.txt` file.
    UnsupportedFormat,
    /// The chunk at this index is over the token budget: the splitter could
    /// not cut it finer.
    OverBudget { index: usize },
}

/// The chunks that the cl100k-measured splitter, trimming whitespace at chunk
/// edges, makes of `text` with at most `max_tokens` tokens per chunk.
pub uninterp spec fn cl100k_chunks(text: Seq<char>, max_tokens: nat) -> Seq<Seq<char>>;

/// The number of tokens of `text` in the cl100k encoding, special tokens
/// encoded as ordinary text.
pub uninterp spec fn cl100k_token_count(text: Seq<char>) -> nat;

pub open spec fn strings_view(v: Seq<String>) -> Seq<Seq<char>> {
    v.map_values(|s: String| s@)
}

/// Non-empty, and neither starts nor ends with whitespace.
pub open spec fn is_trimmed_nonempty(s: Seq<char>) -> bool {
    s.len() > 0 && !is_unicode_ws(s[0]) && !is_unicode_ws(s.last())
}

pub open spec fn all_ws(s: Seq<char>) -> bool {
    forall|i: int| 0 <= i < s.len() ==> is_unicode_ws(#[trigger] s[i])
}

/// `text` is the chunks in order, with only whitespace before, between and
/// after them.
pub open spec fn tiles(text: Seq<char>, chunks: Seq<Seq<char>>) -> bool
    decreases chunks.len(),
{
    if chunks.len() == 0 {
        all_ws(text)
    } else {
        exists|k: int|
            0 <= k && k + chunks[0].len() <= text.len() && all_ws(#[trigger] text.subrange(0, k))
                && text.subrange(k, k + chunks[0].len()) == chunks[0] && tiles(
                text.subrange(k + chunks[0].len(), text.len() as int),
                chunks.drop_first(),
            )
    }
}

/// The characters of `s` that are not whitespace, in order.
pub open spec fn non_ws(s: Seq<char>) -> Seq<char>
    decreases s.len(),
{
    if s.len() == 0 {
        Seq::empty()
    } else if is_unicode_ws(s[0]) {
        non_ws(s.drop_first())
    } else {
        seq![s[0]] + non_ws(s.drop_first())
    }
}

pub open spec fn concat_strs(chunks: Seq<Seq<char>>) -> Seq<char>
    decreases chunks.len(),
{
    if chunks.len() == 0 {
        Seq::empty()
    } else {
        chunks[0] + concat_strs(chunks.drop_first())
    }
}

pub proof fn lemma_non_ws_append(a: Seq<char>, b: Seq<char>)
    ensures
        non_ws(a + b) == non_ws(a) + non_ws(b),
    decreases a.len(),
{
    if a.len() == 0 {
        assert(a + b =~= b);
        assert(Seq::<char>::empty() + non_ws(b) =~= non_ws(b));
    } else {
        assert((a + b).drop_first() =~= a.drop_first() + b);
        assert((a + b)[0] == a[0]);
        lemma_non_ws_append(a.drop_first(), b);
        if !is_unicode_ws(a[0]) {
            assert(seq![a[0]] + (non_ws(a.drop_first()) + non_ws(b)) =~= seq![a[0]] + non_ws(
                a.drop_first(),
            ) + non_ws(b));
        }
    }
}

pub proof fn lemma_all_ws_non_ws(s: Seq<char>)
    requires
        all_ws(s),
    ensures
        non_ws(s) == Seq::<char>::empty(),
    decreases s.len(),
{
    if s.len() > 0 {
        assert(is_unicode_ws(s[0]));
        assert forall|i: int| 0 <= i < s.drop_first().len() implies is_unicode_ws(
            #[trigger] s.drop_first()[i],
        ) by {
            assert(s.drop_first()[i] == s[i + 1]);
        }
        lemma_all_ws_non_ws(s.drop_first());
    }
}

/// Chunks that tile a text keep its non-whitespace content: in full, in
/// order, and nothing else.
pub proof fn lemma_tiles_keep_content(text: Seq<char>, chunks: Seq<Seq<char>>)
    requires
        tiles(text, chunks),
    ensures
        non_ws(concat_strs(chunks)) == non_ws(text),
    decreases chunks.len(),
{
    if chunks.len() == 0 {
        lemma_all_ws_non_ws(text);
    } else {
        let n = chunks[0].len();
        let k = choose|k: int|
            0 <= k && k + n <= text.len() && all_ws(#[trigger] text.subrange(0, k))
                && text.subrange(k, k + n) == chunks[0] && tiles(
                text.subrange(k + n, text.len() as int),
                chunks.drop_first(),
            );
        let pre = text.subrange(0, k);
        let rest = text.subrange(k + n, text.len() as int);
        assert(text =~= pre + chunks[0] + rest);
        lemma_tiles_keep_content(rest, chunks.drop_first());
        lemma_all_ws_non_ws(pre);
        lemma_non_ws_append(pre + chunks[0], rest);
        lemma_non_ws_append(pre, chunks[0]);
        lemma_non_ws_append(chunks[0], concat_strs(chunks.drop_first()));
        assert(Seq::<char>::empty() + non_ws(chunks[0]) =~= non_ws(chunks[0]));
    }
}

/// Tiling chunks that are non-empty and trimmed are none exactly when the
/// text is blank.
pub proof fn lemma_tiles_blank(text: Seq<char>, chunks: Seq<Seq<char>>)
    requires
        tiles(text, chunks),
        forall|i: int| 0 <= i < chunks.len() ==> is_trimmed_nonempty(#[trigger] chunks[i]),
    ensures
        chunks.len() == 0 <==> all_ws(text),
{
    if chunks.len() > 0 {
        let n = chunks[0].len();
        assert(is_trimmed_nonempty(chunks[0]));
        let k = choose|k: int|
            0 <= k && k + n <= text.len() && all_ws(#[trigger] text.subrange(0, k))
                && text.subrange(k, k + n) == chunks[0] && tiles(
                text.subrange(k + n, text.len() as int),
                chunks.drop_first(),
            );
        assert(text[k] == text.subrange(k, k + n)[0]);
        assert(!is_unicode_ws(text[k]));
    }
}

/// The outcome of chunking `text` with budget `max_tokens`: the splitter's
/// chunks when all fit, else the index of the first that does not.
pub open spec fn chunked_as(r: Result<Vec<String>, ChunkError>, text: Seq<char>, max_tokens: nat) -> bool {
    &&& r is Ok <==> first_over_budget(cl100k_chunks(text, max_tokens), max_tokens) is None
    &&& match r {
        Ok(chunks) => {
            &&& strings_view(chunks@) == cl100k_chunks(text, max_tokens)
            &&& forall|i: int|
                0 <= i < chunks@.len() ==> cl100k_token_count(#[trigger] chunks@[i]@) <= max_tokens
            &&& forall|i: int| 0 <= i < chunks@.len() ==> is_trimmed_nonempty(#[trigger] chunks@[i]@)
            &&& tiles(text, strings_view(chunks@))
            &&& non_ws(concat_strs(strings_view(chunks@))) == non_ws(text)
            &&& (chunks@.len() == 0 <==> all_ws(text))
        },
        Err(e) => {
            &&& e matches ChunkError::OverBudget { index }
            &&& first_over_budget(cl100k_chunks(text, max_tokens), max_tokens) == Some(index as int)
        },
    }
}

/// Relies on tiktoken_rs::cl100k_base, which builds the cl100k tokenizer from
/// the vocabulary compiled into the crate, so it always succeeds.
#[verifier::external_body]
fn load_cl100k() -> (r: Option<tiktoken_rs::CoreBPE>)
    ensures
        r is Some,
{
    tiktoken_rs::cl100k_base().ok()
}

/// Splits documents into chunks of bounded cl100k token count.
pub struct Chunker {
    bpe: tiktoken_rs::CoreBPE,
}

/// Index of the first chunk over the budget, if any.
pub open spec fn first_over_budget(chunks: Seq<Seq<char>>, max_tokens: nat) -> Option<int> {
    if exists|i: int| 0 <= i < chunks.len() && cl100k_token_count(#[trigger] chunks[i]) > max_tokens {
        Some(
            choose|i: int|
                0 <= i < chunks.len() && cl100k_token_count(#[trigger] chunks[i]) > max_tokens && forall|
                    j: int,
                | 0 <= j < i ==> cl100k_token_count(#[trigger] chunks[j]) <= max_tokens,
        )
    } else {
        None
    }
}

impl Chunker {
    /// The chunker measured by the cl100k tokenizer.
    pub fn cl100k() -> (r: Chunker) {
        Chunker { bpe: load_cl100k().unwrap() }
    }

    /// Relies on text_splitter::TextSplitter::chunks, sized by this cl100k
    /// tokenizer, with chunk trimming on. Its cursor starts at 0 and moves
    /// forward over the text; each chunk is `str::trim` of the slice from the
    /// previous cursor to the next, and chunks left empty by trimming are
    /// skipped, until the cursor reaches the end.
    #[verifier::external_body]
    fn split_by_tokens(&self, text: &str, max_tokens: usize) -> (r: Vec<String>)
        ensures
            strings_view(r@) == cl100k_chunks(text@, max_tokens as nat),
            forall|i: int| 0 <= i < r@.len() ==> is_trimmed_nonempty(#[trigger] r@[i]@),
            tiles(text@, strings_view(r@)),
    {
        let splitter = text_splitter::TextSplitter::new(&self.bpe).with_trim_chunks(true);
        splitter.chunks(text, max_tokens).map(|s| s.to_string()).collect()
    }

    /// Relies on tiktoken_rs::CoreBPE::encode_ordinary: the number of tokens
    /// of `text` under this cl100k tokenizer.
    #[verifier::external_body]
    fn count_tokens(&self, text: &str) -> (r: usize)
        ensures
            r as nat == cl100k_token_count(text@),
    {
        self.bpe.encode_ordinary(text).len()
    }

    /// Chunks `text`: every chunk is non-empty, trimmed, and within
    /// `max_tokens`, and together they tile the text; fails on the first
    /// chunk that the splitter could not bring within the budget.
    pub fn chunk_text(&self, text: &str, max_tokens: usize) -> (r: Result<Vec<String>, ChunkError>)
        requires
            max_tokens > 0,
        ensures
            chunked_as(r, text@, max_tokens as nat),
    {
        let chunks = self.split_by_tokens(text, max_tokens);
        let ghost cs = strings_view(chunks@);
        let mut i: usize = 0;
        while i < chunks.len()
            invariant
                i <= chunks@.len(),
                cs == strings_view(chunks@),
                cs == cl100k_chunks(text@, max_tokens as nat),
                forall|j: int| 0 <= j < i ==> cl100k_token_count(#[trigger] cs[j]) <= max_tokens,
            decreases chunks@.len() - i,
        {
            let n = self.count_tokens(chunks[i].as_str());
            if n > max_tokens {
                assert(cl100k_token_count(cs[i as int]) > max_tokens);
                let ghost k = first_over_budget(cs, max_tokens as nat)->Some_0;
                assert(k == i as int) by {
                    if k < i {
                        assert(cl100k_token_count(cs[k]) <= max_tokens);
                    } else if k > i {
                        assert(cl100k_token_count(cs[i as int]) <= max_tokens);
                    }
                }
                return Err(ChunkError::OverBudget { index: i });
            }
            i = i + 1;
        }
        assert forall|j: int| 0 <= j < chunks@.len() implies cl100k_token_count(
            #[trigger] chunks@[j]@,
        ) <= max_tokens by {
            assert(cs[j] == chunks@[j]@);
        }
        proof {
            assert forall|j: int| 0 <= j < cs.len() implies is_trimmed_nonempty(#[trigger] cs[j]) by {
                assert(cs[j] == chunks@[j]@);
            }
            lemma_tiles_keep_content(text@, cs);
            lemma_tiles_blank(text@, cs);
        }
        Ok(chunks)
    }
}

/// Length of the directory part of a path, up to and including its last `/`.
pub open spec fn dir_prefix_len(p: Seq<u8>) -> nat
    decreases p.len(),
{
    if p.len() == 0 {
        0
    } else if p.last() == 47 {
        p.len()
    } else {
        dir_prefix_len(p.drop_last())
    }
}

/// The bytes of a path after its last `/`.
pub open spec fn file_name_of(p: Seq<u8>) -> Seq<u8> {
    p.subrange(dir_prefix_len(p) as int, p.len() as int)
}

/// The file name has the extension `txt`: it ends with `.txt` after a
/// non-empty stem.
pub open spec fn has_txt_extension(p: Seq<u8>) -> bool {
    let n = file_name_of(p);
    n.len() >= 5 && n.subrange(n.len() - 4, n.len() as int) == seq![46u8, 116u8, 120u8, 116u8]
}

/// Whether `path` names a `.txt` file.
pub fn is_txt_path(path: &str) -> (r: bool)
    ensures
        r == has_txt_extension(path.spec_bytes()),
{
    let b = path.as_bytes();
    let ghost bs = b@;
    let mut k: usize = b.len();
    assert(bs.subrange(0, k as int) =~= bs);
    while k > 0 && b[k - 1] != 47
        invariant
            k <= bs.len(),
            bs == b@,
            dir_prefix_len(bs) == dir_prefix_len(bs.subrange(0, k as int)),
        decreases k,
    {
        assert(bs.subrange(0, k as int).drop_last() =~= bs.subrange(0, k - 1));
        k = k - 1;
    }
    proof {
        if k > 0 {
            assert(bs.subrange(0, k as int).last() == 47);
        }
    }
    assert(dir_prefix_len(bs) == k);
    let n = b.len();
    if n - k < 5 {
        return false;
    }
    let ghost name = file_name_of(bs);
    assert(name.subrange(name.len() - 4, name.len() as int) =~= bs.subrange(n - 4, n as int));
    let r = b[n - 4] == 46 && b[n - 3] == 116 && b[n - 2] == 120 && b[n - 1] == 116;
    assert(r == (bs.subrange(n - 4, n as int) =~= seq![46u8, 116u8, 120u8, 116u8]));
    r
}

/// Chunks the text of the document at `path`, at most `max_tokens` tokens
/// per chunk. The path must name a `.txt` file.
pub fn chunk_document(path: &str, text: &str, max_tokens: usize) -> (r: Result<
    Vec<String>,
    ChunkError,
>)
    requires
        max_tokens > 0,
    ensures
        !has_txt_extension(path.spec_bytes()) ==> r == Err::<Vec<String>, ChunkError>(
            ChunkError::UnsupportedFormat,
        ),
        has_txt_extension(path.spec_bytes()) ==> chunked_as(r, text@, max_tokens as nat),
{
    if !is_txt_path(path) {
        return Err(ChunkError::UnsupportedFormat);
    }
    Chunker::cl100k().chunk_text(text, max_tokens)
}

} // verus!
