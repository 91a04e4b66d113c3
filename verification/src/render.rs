//! Rendering of the per-language statistics block: a deterministic order
//! (descending byte count, ties broken by name), one line per language with
//! its name, percentage and proportional bar, and the fixed texts around it.
use vstd::prelude::*;

use crate::stats::{
    bar_len, bar_length, lemma_elem_le_sum, lemma_sum_counts_concat, lemma_sum_counts_nonneg,
    lemma_sum_counts_prefix_le, lemma_sum_counts_take_step, percent_chars, percentage, sum_counts,
};
use crate::text::{lemma_lex_le_total, lemma_lex_le_trans, lex_le, pad_chars, pad_right, spaces,
    str_lex_le};

verus! {

/// Columns reserved for the language name and the percentage, before the bar.
pub const TEXT_WIDTH: usize = 30;

/// Terminal width assumed when the real one cannot be detected.
pub const FALLBACK_WIDTH: usize = 60;

/// One language of a repository with the bytes attributed to it.
pub struct LangStat {
    /// The language's name, as the remote API reports it.
    pub name: String,
    /// Bytes of source attributed to the language.
    pub bytes: u64,
}

/// The byte counts of a sequence of language entries.
pub open spec fn bytes_seq(s: Seq<LangStat>) -> Seq<u64> {
    s.map_values(|l: LangStat| l.bytes)
}

/// Rendering order: more bytes first, and names in lexicographic order among
/// languages with equally many bytes.
pub open spec fn stat_le(a: LangStat, b: LangStat) -> bool {
    b.bytes < a.bytes || (a.bytes == b.bytes && lex_le(a.name@, b.name@))
}

/// The entries stand in rendering order.
pub open spec fn sorted_stats(s: Seq<LangStat>) -> bool {
    forall|i: int, j: int| 0 <= i < j < s.len() ==> stat_le(s[i], s[j])
}

proof fn lemma_stat_le_total(a: LangStat, b: LangStat)
    ensures
        stat_le(a, b) || stat_le(b, a),
{
    if a.bytes == b.bytes {
        lemma_lex_le_total(a.name@, b.name@);
    }
}

proof fn lemma_stat_le_trans(a: LangStat, b: LangStat, c: LangStat)
    requires
        stat_le(a, b),
        stat_le(b, c),
    ensures
        stat_le(a, c),
{
    if a.bytes == b.bytes && b.bytes == c.bytes {
        lemma_lex_le_trans(a.name@, b.name@, c.name@);
    }
}

proof fn lemma_sum_counts_single(x: LangStat)
    ensures
        sum_counts(bytes_seq(seq![x])) == x.bytes,
{
    assert(bytes_seq(seq![x]) =~= seq![x.bytes]);
    assert(seq![x.bytes].drop_last() =~= Seq::<u64>::empty());
    assert(sum_counts(Seq::<u64>::empty()) == 0);
    assert(sum_counts(seq![x.bytes]) == sum_counts(seq![x.bytes].drop_last())
        + seq![x.bytes].last());
}

/// Whether `a` comes no later than `b` in rendering order.
fn stat_le_exec(a: &LangStat, b: &LangStat) -> (r: bool)
    ensures
        r == stat_le(*a, *b),
{
    if b.bytes < a.bytes {
        true
    } else if a.bytes < b.bytes {
        false
    } else {
        str_lex_le(a.name.as_str(), b.name.as_str())
    }
}

/// Places `x` at its position in an already ordered vector.
fn insert_sorted(v: &mut Vec<LangStat>, x: LangStat)
    requires
        sorted_stats(old(v)@),
    ensures
        sorted_stats(final(v)@),
        final(v)@.to_multiset() == old(v)@.to_multiset().insert(x),
        final(v)@.len() == old(v)@.len() + 1,
        sum_counts(bytes_seq(final(v)@)) == sum_counts(bytes_seq(old(v)@)) + x.bytes,
{
    let ghost s = v@;
    let mut i: usize = 0;
    loop
        invariant
            sorted_stats(s),
            v@ == s,
            i <= s.len(),
            forall|j: int| 0 <= j < i ==> stat_le(s[j], x),
        ensures
            v@ == s,
            i <= s.len(),
            forall|j: int| 0 <= j < i ==> stat_le(s[j], x),
            i < s.len() ==> stat_le(x, s[i as int]),
        decreases s.len() - i,
    {
        if i >= v.len() {
            break ;
        }
        if !stat_le_exec(&v[i], &x) {
            proof {
                lemma_stat_le_total(s[i as int], x);
            }
            break ;
        }
        i = i + 1;
    }
    v.insert(i, x);
    proof {
        let t = s.insert(i as int, x);
        assert(v@ == t);
        // order: every pair of the new vector is ordered
        assert forall|p: int, q: int| 0 <= p < q < t.len() implies stat_le(t[p], t[q]) by {
            if q < i {
                assert(t[p] == s[p] && t[q] == s[q]);
            } else if p > i {
                assert(t[p] == s[p - 1] && t[q] == s[q - 1]);
            } else if q == i {
                assert(t[p] == s[p] && t[q] == x);
            } else if p == i {
                assert(t[p] == x && t[q] == s[q - 1]);
                if q - 1 > i {
                    assert(stat_le(s[i as int], s[q - 1]));
                    lemma_stat_le_trans(x, s[i as int], s[q - 1]);
                }
            } else {
                // p < i < q
                assert(t[p] == s[p] && t[q] == s[q - 1]);
                if q - 1 == i {
                    assert(stat_le(s[p], x));
                } else {
                    assert(stat_le(s[p], s[q - 1]));
                }
            }
        }
        // multiset: inserting somewhere in the middle adds one copy of x
        assert(t.remove(i as int) =~= s);
        t.to_multiset_ensures();
        assert(t.to_multiset().remove(t[i as int]) =~= s.to_multiset());
        assert(t.to_multiset().contains(x));
        assert(t.to_multiset() =~= s.to_multiset().insert(x));
        // sums: the new entry's bytes join the total
        assert(t =~= s.take(i as int) + seq![x] + s.skip(i as int));
        assert(s =~= s.take(i as int) + s.skip(i as int));
        lemma_sum_counts_concat(
            bytes_seq(s.take(i as int) + seq![x]),
            bytes_seq(s.skip(i as int)),
        );
        lemma_sum_counts_concat(bytes_seq(s.take(i as int)), bytes_seq(seq![x]));
        lemma_sum_counts_concat(bytes_seq(s.take(i as int)), bytes_seq(s.skip(i as int)));
        assert(bytes_seq(s.take(i as int) + seq![x] + s.skip(i as int)) =~= bytes_seq(
            s.take(i as int) + seq![x],
        ) + bytes_seq(s.skip(i as int)));
        assert(bytes_seq(s.take(i as int) + seq![x]) =~= bytes_seq(s.take(i as int)) + bytes_seq(
            seq![x],
        ));
        assert(bytes_seq(s) =~= bytes_seq(s.take(i as int)) + bytes_seq(s.skip(i as int)));
        lemma_sum_counts_single(x);
    }
}

/// The entries in rendering order: descending byte count, names in
/// lexicographic order among equal counts. The result holds exactly the given
/// entries.
pub fn sort_stats(stats: Vec<LangStat>) -> (r: Vec<LangStat>)
    ensures
        sorted_stats(r@),
        r@.to_multiset() == stats@.to_multiset(),
        r@.len() == stats@.len(),
        sum_counts(bytes_seq(r@)) == sum_counts(bytes_seq(stats@)),
{
    let ghost orig = stats@;
    let mut rest = stats;
    let mut out: Vec<LangStat> = Vec::new();
    proof {
        out@.to_multiset_ensures();
        assert(out@.to_multiset().add(rest@.to_multiset()) =~= orig.to_multiset());
        assert(bytes_seq(out@) =~= Seq::<u64>::empty());
    }
    loop
        invariant
            sorted_stats(out@),
            out@.to_multiset().add(rest@.to_multiset()) == orig.to_multiset(),
            out@.len() + rest@.len() == orig.len(),
            sum_counts(bytes_seq(out@)) + sum_counts(bytes_seq(rest@)) == sum_counts(
                bytes_seq(orig),
            ),
        ensures
            sorted_stats(out@),
            out@.to_multiset().add(rest@.to_multiset()) == orig.to_multiset(),
            out@.len() + rest@.len() == orig.len(),
            sum_counts(bytes_seq(out@)) + sum_counts(bytes_seq(rest@)) == sum_counts(
                bytes_seq(orig),
            ),
            rest@.len() == 0,
        decreases rest@.len(),
    {
        if rest.len() == 0 {
            break ;
        }
        let ghost r0 = rest@;
        let x = rest.remove(0);
        proof {
            r0.to_multiset_ensures();
            assert(rest@.to_multiset() =~= r0.to_multiset().remove(x));
            assert(r0[0] == x && r0.contains(x));
            assert(r0.to_multiset().count(x) > 0);
            assert(r0 =~= seq![x] + rest@);
            lemma_sum_counts_concat(bytes_seq(seq![x]), bytes_seq(rest@));
            assert(bytes_seq(r0) =~= bytes_seq(seq![x]) + bytes_seq(rest@));
            lemma_sum_counts_single(x);
        }
        let ghost o0 = out@;
        insert_sorted(&mut out, x);
        proof {
            assert(out@.to_multiset().add(rest@.to_multiset()) =~= orig.to_multiset());
        }
    }
    proof {
        rest@.to_multiset_ensures();
        assert(rest@ =~= Seq::<LangStat>::empty());
        assert(rest@.to_multiset().len() == 0);
        assert(bytes_seq(rest@) =~= Seq::<u64>::empty());
        out@.to_multiset_ensures();
        assert(out@.to_multiset() =~= orig.to_multiset());
        orig.to_multiset_ensures();
    }
    out
}

/// A bar of `n` block characters.
pub open spec fn bar_chars(n: nat) -> Seq<char> {
    Seq::new(n, |i: int| '■')
}

/// The drawable bar width: the terminal width (or the fallback when none was
/// detected) less the columns reserved for text, floored at zero.
pub open spec fn spec_drawable_width(term_width: Option<usize>) -> nat {
    let w = match term_width {
        Some(w) => w as nat,
        None => FALLBACK_WIDTH as nat,
    };
    if w > TEXT_WIDTH as nat {
        (w - TEXT_WIDTH) as nat
    } else {
        0
    }
}

/// How many columns the bars may use, given the detected terminal width, as
/// `spec_drawable_width` says.
pub fn drawable_width(term_width: Option<usize>) -> (r: usize)
    ensures
        r == spec_drawable_width(term_width),
{
    let w = match term_width {
        Some(w) => w,
        None => FALLBACK_WIDTH,
    };
    if w > TEXT_WIDTH {
        w - TEXT_WIDTH
    } else {
        0
    }
}

/// The proportional bar for `count` out of `sum` bytes: `bar_len` repetitions
/// of the block character.
pub fn get_bar(sum: u64, count: u64, bar_width: usize) -> (r: String)
    requires
        count <= sum,
    ensures
        r@ == bar_chars(bar_len(sum as nat, count as nat, bar_width as nat)),
{
    let n = bar_length(sum, count, bar_width);
    let mut r = String::new();
    let mut i: usize = 0;
    while i < n
        invariant
            i <= n,
            r@ =~= bar_chars(i as nat),
        decreases n - i,
    {
        r.append("■");
        i = i + 1;
        proof {
            reveal_strlit("■");
            assert(r@ =~= bar_chars(i as nat));
        }
    }
    r
}

/// The total bytes of all languages together.
pub fn total_bytes(stats: &Vec<LangStat>) -> (r: u64)
    requires
        sum_counts(bytes_seq(stats@)) <= u64::MAX,
    ensures
        r == sum_counts(bytes_seq(stats@)),
{
    let ghost bs = bytes_seq(stats@);
    let mut acc: u64 = 0;
    let mut i: usize = 0;
    proof {
        assert(bs.take(0) =~= Seq::<u64>::empty());
    }
    while i < stats.len()
        invariant
            i <= stats.len(),
            bs == bytes_seq(stats@),
            bs.len() == stats@.len(),
            sum_counts(bs) <= u64::MAX,
            acc == sum_counts(bs.take(i as int)),
        decreases stats.len() - i,
    {
        proof {
            lemma_sum_counts_take_step(bs, i as int);
            lemma_sum_counts_prefix_le(bs, i as int + 1);
            lemma_sum_counts_nonneg(bs.take(i as int));
            assert(bs[i as int] == stats@[i as int].bytes);
        }
        acc = acc + stats[i].bytes;
        i = i + 1;
    }
    proof {
        assert(bs.take(stats@.len() as int) =~= bs);
    }
    acc
}

/// One rendered statistics line: the language name in a column of 15
/// characters, two spaces, the percentage in a column of 6, two spaces, and
/// the proportional bar.
pub open spec fn stat_line_chars(name: Seq<char>, sum: nat, count: nat, bar_width: nat) -> Seq<
    char,
> {
    pad_chars(name, 15) + spaces(2) + pad_chars(percent_chars(sum, count), 6) + spaces(2)
        + bar_chars(bar_len(sum, count, bar_width))
}

/// Renders one language's line, as `stat_line_chars` says.
pub fn stat_line(stat: &LangStat, sum: u64, bar_width: usize) -> (r: String)
    requires
        stat.bytes <= sum,
    ensures
        r@ == stat_line_chars(stat.name@, sum as nat, stat.bytes as nat, bar_width as nat),
{
    let mut line = pad_right(stat.name.as_str(), 15);
    line.append("  ");
    let perc = percentage(sum, stat.bytes);
    let padded = pad_right(perc.as_str(), 6);
    line.append(padded.as_str());
    line.append("  ");
    let bar = get_bar(sum, stat.bytes, bar_width);
    line.append(bar.as_str());
    proof {
        reveal_strlit("  ");
        assert("  "@ =~= spaces(2));
        assert(line@ =~= stat_line_chars(
            stat.name@,
            sum as nat,
            stat.bytes as nat,
            bar_width as nat,
        ));
    }
    line
}

/// Renders the whole language block. An empty map yields exactly the fixed
/// "no languages found" message. Otherwise the first line is the heading and
/// each language follows on its own line, in rendering order (descending byte
/// count, ties broken by name), each line as `stat_line_chars` says, with the
/// byte counts taken against the total of all entries.
pub fn render_stats(stats: Vec<LangStat>, bar_width: usize) -> (r: Vec<String>)
    requires
        sum_counts(bytes_seq(stats@)) <= u64::MAX,
    ensures
        stats@.len() == 0 ==> r@.len() == 1 && r@[0]@ == "No languages found"@,
        stats@.len() > 0 ==> r@.len() == stats@.len() + 1 && r@[0]@ == "Languages:"@ && (exists|
            t: Seq<LangStat>,
        |
            {
                &&& #[trigger] sorted_stats(t)
                &&& t.to_multiset() == stats@.to_multiset()
                &&& t.len() == stats@.len()
                &&& forall|i: int|
                    0 <= i < t.len() ==> (#[trigger] r@[i + 1])@ == stat_line_chars(
                        t[i].name@,
                        sum_counts(bytes_seq(stats@)) as nat,
                        t[i].bytes as nat,
                        bar_width as nat,
                    )
            }),
{
    let ghost input = stats@;
    if stats.len() == 0 {
        let mut out: Vec<String> = Vec::new();
        out.push(String::from_str("No languages found"));
        return out;
    }
    let sorted = sort_stats(stats);
    let total = total_bytes(&sorted);
    let mut out: Vec<String> = Vec::new();
    out.push(String::from_str("Languages:"));
    let mut i: usize = 0;
    while i < sorted.len()
        invariant
            i <= sorted@.len(),
            out@.len() == i + 1,
            out@[0]@ == "Languages:"@,
            total == sum_counts(bytes_seq(sorted@)),
            sum_counts(bytes_seq(sorted@)) <= u64::MAX,
            forall|j: int|
                0 <= j < i ==> (#[trigger] out@[j + 1])@ == stat_line_chars(
                    sorted@[j].name@,
                    total as nat,
                    sorted@[j].bytes as nat,
                    bar_width as nat,
                ),
        decreases sorted@.len() - i,
    {
        proof {
            lemma_elem_le_sum(bytes_seq(sorted@), i as int);
            assert(bytes_seq(sorted@)[i as int] == sorted@[i as int].bytes);
        }
        let line = stat_line(&sorted[i], total, bar_width);
        out.push(line);
        i = i + 1;
    }
    proof {
        let t = sorted@;
        assert(sorted_stats(t) && t.to_multiset() == input.to_multiset() && t.len() == input.len()
            && forall|i: int|
            0 <= i < t.len() ==> (#[trigger] out@[i + 1])@ == stat_line_chars(
                t[i].name@,
                sum_counts(bytes_seq(input)) as nat,
                t[i].bytes as nat,
                bar_width as nat,
            ));
    }
    out
}

} // verus!
