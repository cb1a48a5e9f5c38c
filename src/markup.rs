use vstd::prelude::*;
use vstd::string::*;

use crate::text::{chars_of, string_of};

verus! {

/// Whether `w` occurs in `s` starting at index `i`.
pub open spec fn occurs_at(s: Seq<char>, i: int, w: Seq<char>) -> bool {
    0 <= i && i + w.len() <= s.len() && s.subrange(i, i + w.len()) == w
}

/// The block-level tags that become line breaks: paragraph open and close,
/// line break, division open and close.
pub open spec fn block_tags() -> Seq<Seq<char>> {
    seq![
        seq!['<', 'p', '>'],
        seq!['<', '/', 'p', '>'],
        seq!['<', 'b', 'r', '>'],
        seq!['<', 'b', 'r', '/', '>'],
        seq!['<', 'd', 'i', 'v', '>'],
        seq!['<', '/', 'd', 'i', 'v', '>'],
    ]
}

/// Length of the block tag found at index `i` of `s`, or 0 when none starts there.
pub open spec fn block_tag_len(s: Seq<char>, i: int) -> int {
    if exists|k: int| 0 <= k < block_tags().len() && occurs_at(s, i, #[trigger] block_tags()[k]) {
        block_tags()[choose|k: int|
            0 <= k < block_tags().len() && occurs_at(s, i, #[trigger] block_tags()[k])].len() as int
    } else {
        0
    }
}

/// First phase: every block tag of `s` from index `i` on becomes one newline.
pub open spec fn replace_blocks_from(s: Seq<char>, i: int) -> Seq<char>
    decreases s.len() - i,
{
    if i < 0 || i >= s.len() {
        Seq::empty()
    } else if block_tag_len(s, i) > 0 && i + block_tag_len(s, i) <= s.len() {
        seq!['\n'] + replace_blocks_from(s, i + block_tag_len(s, i))
    } else {
        seq![s[i]] + replace_blocks_from(s, i + 1)
    }
}

/// Index of the first `>` of `s` at or after `j`, or the length of `s`.
pub open spec fn next_close(s: Seq<char>, j: int) -> int
    decreases s.len() - j,
{
    if j < 0 || j >= s.len() {
        s.len() as int
    } else if s[j] == '>' {
        j
    } else {
        next_close(s, j + 1)
    }
}

/// Second phase: each `<` that a later `>` closes is removed together with
/// everything up to and including that `>`; a `<` that nothing closes stays.
pub open spec fn strip_tags_from(s: Seq<char>, i: int) -> Seq<char>
    decreases s.len() - i,
{
    if i < 0 || i >= s.len() {
        Seq::empty()
    } else if s[i] == '<' && next_close(s, i + 1) < s.len() && next_close(s, i + 1) >= i + 1 {
        strip_tags_from(s, next_close(s, i + 1) + 1)
    } else {
        seq![s[i]] + strip_tags_from(s, i + 1)
    }
}

/// Approximate plain text of a piece of markup: block tags become newlines,
/// then all remaining tags are removed.
pub open spec fn render_markup(s: Seq<char>) -> Seq<char> {
    strip_tags_from(replace_blocks_from(s, 0), 0)
}

/// The separator placed between the rendered texts of two resources.
pub open spec fn section_separator() -> Seq<char> {
    seq!['\n', '\n']
}

/// The parts joined in order, with the separator between two neighbours.
pub open spec fn joined(parts: Seq<Seq<char>>) -> Seq<char>
    decreases parts.len(),
{
    if parts.len() == 0 {
        Seq::empty()
    } else if parts.len() == 1 {
        parts[0]
    } else {
        joined(parts.drop_last()) + section_separator() + parts.last()
    }
}

proof fn lemma_next_close_bounds(s: Seq<char>, j: int)
    requires
        0 <= j <= s.len(),
    ensures
        j <= next_close(s, j) <= s.len(),
        next_close(s, j) < s.len() ==> s[next_close(s, j)] == '>',
        forall|k: int| j <= k < next_close(s, j) ==> s[k] != '>',
    decreases s.len() - j,
{
    if j < s.len() && s[j] != '>' {
        lemma_next_close_bounds(s, j + 1);
    }
}

proof fn lemma_unclosed_rest(s: Seq<char>, i: int)
    requires
        0 <= i <= s.len(),
        next_close(s, i) == s.len(),
    ensures
        strip_tags_from(s, i) == s.subrange(i, s.len() as int),
    decreases s.len() - i,
{
    if i < s.len() {
        lemma_next_close_bounds(s, i);
        assert(s[i] != '>');
        assert(next_close(s, i + 1) == s.len());
        lemma_unclosed_rest(s, i + 1);
        assert(s.subrange(i, s.len() as int) =~= seq![s[i]] + s.subrange(i + 1, s.len() as int));
    } else {
        assert(s.subrange(i, s.len() as int) =~= Seq::<char>::empty());
    }
}

fn occurs_in(s: &Vec<char>, i: usize, w: &[char]) -> (r: bool)
    requires
        i <= s.len(),
    ensures
        r == occurs_at(s@, i as int, w@),
{
    if w.len() > s.len() - i {
        return false;
    }
    let mut k: usize = 0;
    while k < w.len()
        invariant
            i + w.len() <= s.len(),
            k <= w.len(),
            forall|m: int| 0 <= m < k ==> s@[i + m] == w@[m],
        decreases w.len() - k,
    {
        if s[i + k] != w[k] {
            assert(s@.subrange(i as int, i + w.len())[k as int] != w@[k as int]);
            return false;
        }
        k = k + 1;
    }
    assert(s@.subrange(i as int, i + w.len()) =~= w@);
    true
}

proof fn lemma_tag_len_unique(s: Seq<char>, i: int, k: int)
    requires
        0 <= k < block_tags().len(),
        occurs_at(s, i, block_tags()[k]),
    ensures
        block_tag_len(s, i) == block_tags()[k].len(),
{
    let k2 = choose|k: int|
        0 <= k < block_tags().len() && occurs_at(s, i, #[trigger] block_tags()[k]);
    assert(occurs_at(s, i, block_tags()[k2]));
    let a = block_tags()[k];
    let b = block_tags()[k2];
    assert(s.subrange(i, i + a.len()) == a);
    assert(s.subrange(i, i + b.len()) == b);
    // every block tag ends at its first '>', so two that start together are equal
    assert forall|m: int| 0 <= m < a.len() - 1 implies a[m] != '>' by {
        assert(block_tags()[k] == a);
    }
    assert forall|m: int| 0 <= m < b.len() - 1 implies b[m] != '>' by {
        assert(block_tags()[k2] == b);
    }
    if a.len() < b.len() {
        assert(b[a.len() - 1] == s.subrange(i, i + b.len())[a.len() - 1]);
        assert(a[a.len() - 1] == s.subrange(i, i + a.len())[a.len() - 1]);
        assert(false);
    } else if b.len() < a.len() {
        assert(b[b.len() - 1] == s.subrange(i, i + b.len())[b.len() - 1]);
        assert(a[b.len() - 1] == s.subrange(i, i + a.len())[b.len() - 1]);
        assert(false);
    }
}

fn block_tag_at(s: &Vec<char>, i: usize) -> (r: usize)
    requires
        i < s.len(),
    ensures
        r == block_tag_len(s@, i as int),
        r > 0 ==> i + r <= s.len(),
{
    let tags: [&[char]; 6] = [
        &['<', 'p', '>'],
        &['<', '/', 'p', '>'],
        &['<', 'b', 'r', '>'],
        &['<', 'b', 'r', '/', '>'],
        &['<', 'd', 'i', 'v', '>'],
        &['<', '/', 'd', 'i', 'v', '>'],
    ];
    let mut k: usize = 0;
    while k < 6
        invariant
            k <= 6,
            i < s.len(),
            forall|m: int| 0 <= m < 6 ==> (#[trigger] tags@[m])@ == block_tags()[m],
            forall|m: int| 0 <= m < k ==> !occurs_at(s@, i as int, #[trigger] block_tags()[m]),
        decreases 6 - k,
    {
        if occurs_in(s, i, tags[k]) {
            proof {
                lemma_tag_len_unique(s@, i as int, k as int);
            }
            return tags[k].len();
        }
        k = k + 1;
    }
    0
}

/// First phase of rendering, over a character vector.
pub fn replace_block_tags(s: &Vec<char>) -> (r: Vec<char>)
    ensures
        r@ == replace_blocks_from(s@, 0),
{
    let mut out: Vec<char> = Vec::new();
    let mut i: usize = 0;
    while i < s.len()
        invariant
            i <= s.len(),
            out@ + replace_blocks_from(s@, i as int) == replace_blocks_from(s@, 0),
        decreases s.len() - i,
    {
        let n = block_tag_at(s, i);
        if n > 0 {
            out.push('\n');
            i = i + n;
        } else {
            out.push(s[i]);
            i = i + 1;
        }
    }
    assert(replace_blocks_from(s@, i as int) =~= Seq::<char>::empty());
    out
}

/// Second phase of rendering, over a character vector.
pub fn strip_tags(s: &Vec<char>) -> (r: Vec<char>)
    ensures
        r@ == strip_tags_from(s@, 0),
{
    let mut out: Vec<char> = Vec::new();
    let mut i: usize = 0;
    while i < s.len()
        invariant
            i <= s.len(),
            out@ + strip_tags_from(s@, i as int) == strip_tags_from(s@, 0),
        decreases s.len() - i,
    {
        if s[i] == '<' {
            let mut j: usize = i + 1;
            while j < s.len() && s[j] != '>'
                invariant
                    i + 1 <= j <= s.len(),
                    next_close(s@, i + 1) == next_close(s@, j as int),
                decreases s.len() - j,
            {
                j = j + 1;
            }
            if j < s.len() {
                i = j + 1;
            } else {
                proof {
                    lemma_unclosed_rest(s@, i as int);
                }
                while i < s.len()
                    invariant
                        i <= s.len(),
                        out@ + s@.subrange(i as int, s.len() as int) == strip_tags_from(s@, 0),
                    decreases s.len() - i,
                {
                    out.push(s[i]);
                    i = i + 1;
                    assert(s@.subrange(i - 1, s.len() as int) =~= seq![s@[i - 1]] + s@.subrange(
                        i as int,
                        s.len() as int,
                    ));
                }
                assert(s@.subrange(i as int, s.len() as int) =~= Seq::<char>::empty());
                return out;
            }
        } else {
            out.push(s[i]);
            i = i + 1;
        }
    }
    assert(strip_tags_from(s@, i as int) =~= Seq::<char>::empty());
    out
}

/// Renders one piece of markup as approximate plain text.
pub fn render_markup_text(markup: &str) -> (r: String)
    ensures
        r@ == render_markup(markup@),
{
    let chars = chars_of(markup);
    let blocks = replace_block_tags(&chars);
    let text = strip_tags(&blocks);
    string_of(&text)
}

/// The views of a sequence of strings.
pub open spec fn views_of(parts: Seq<String>) -> Seq<Seq<char>> {
    parts.map_values(|p: String| p@)
}

/// Joins texts in order, with a blank line between two neighbours.
pub fn join_sections(parts: &Vec<String>) -> (r: String)
    ensures
        r@ == joined(views_of(parts@)),
{
    let mut out = String::new();
    let mut i: usize = 0;
    while i < parts.len()
        invariant
            i <= parts.len(),
            out@ == joined(views_of(parts@.take(i as int))),
        decreases parts.len() - i,
    {
        proof {
            reveal_strlit("\n\n");
        }
        if i > 0 {
            out.append("\n\n");
        }
        out.append(parts[i].as_str());
        proof {
            let prev = views_of(parts@.take(i as int));
            let next = views_of(parts@.take(i + 1));
            assert(next.drop_last() =~= prev);
            assert(next.last() == parts@[i as int]@);
            if i == 0 {
                assert(prev =~= Seq::<Seq<char>>::empty());
            }
        }
        i = i + 1;
    }
    assert(parts@.take(parts.len() as int) =~= parts@);
    out
}

} // verus!
