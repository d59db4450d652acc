//! The order of articles within a year: ascending by `date`, compared as
//! strings, character by character. Articles with the same date keep the
//! order in which they came.

use vstd::prelude::*;
use crate::article::{articles_view, Article, ArticleView};
use crate::text::to_chars;

verus! {

/// Whether `a` comes before `b` in the lexicographic order of their
/// characters, or equals it. A proper prefix comes before the longer string.
pub open spec fn lex_le(a: Seq<char>, b: Seq<char>) -> bool
    decreases a.len(),
{
    if a.len() == 0 {
        true
    } else if b.len() == 0 {
        false
    } else if a[0] == b[0] {
        lex_le(a.skip(1), b.skip(1))
    } else {
        (a[0] as u32) < (b[0] as u32)
    }
}

/// Characters with the same code are the same character.
proof fn lemma_char_code_injective(c: char, d: char)
    requires
        c as u32 == d as u32,
    ensures
        c == d,
{
    assert((c as u32) as char == c);
    assert((d as u32) as char == d);
}

/// Every string is at most itself.
pub proof fn lemma_lex_le_reflexive(a: Seq<char>)
    ensures
        lex_le(a, a),
    decreases a.len(),
{
    if a.len() > 0 {
        lemma_lex_le_reflexive(a.skip(1));
    }
}

/// Of two strings, one is at most the other.
pub proof fn lemma_lex_le_total(a: Seq<char>, b: Seq<char>)
    ensures
        lex_le(a, b) || lex_le(b, a),
    decreases a.len(),
{
    if a.len() > 0 && b.len() > 0 {
        if a[0] == b[0] {
            lemma_lex_le_total(a.skip(1), b.skip(1));
        } else if a[0] as u32 == b[0] as u32 {
            lemma_char_code_injective(a[0], b[0]);
        }
    }
}

/// The order is transitive.
pub proof fn lemma_lex_le_transitive(a: Seq<char>, b: Seq<char>, c: Seq<char>)
    requires
        lex_le(a, b),
        lex_le(b, c),
    ensures
        lex_le(a, c),
    decreases a.len(),
{
    if a.len() > 0 && b.len() > 0 && c.len() > 0 && a[0] == b[0] && b[0] == c[0] {
        lemma_lex_le_transitive(a.skip(1), b.skip(1), c.skip(1));
    }
}

/// Two strings that are at most each other are the same string.
pub proof fn lemma_lex_le_antisymmetric(a: Seq<char>, b: Seq<char>)
    requires
        lex_le(a, b),
        lex_le(b, a),
    ensures
        a == b,
    decreases a.len(),
{
    if a.len() > 0 && b.len() > 0 {
        lemma_lex_le_antisymmetric(a.skip(1), b.skip(1));
        assert(a =~= seq![a[0]] + a.skip(1));
        assert(b =~= seq![b[0]] + b.skip(1));
    } else {
        assert(a =~= b);
    }
}

/// Whether the dates never decrease along the list.
pub open spec fn sorted_by_date(articles: Seq<ArticleView>) -> bool {
    forall|i: int, j: int|
        0 <= i < j < articles.len() ==> lex_le(
            (#[trigger] articles[i]).date,
            (#[trigger] articles[j]).date,
        )
}

/// Whether `output` is `input` sorted by date, with `order[k]` the position
/// in `input` of the article that stands at `k` in `output`: every article
/// of the input stands in the output, and once only; the dates never
/// decrease; and articles with the same date stand in the order of the
/// input.
pub open spec fn is_stable_sort(
    input: Seq<ArticleView>,
    output: Seq<ArticleView>,
    order: Seq<int>,
) -> bool {
    &&& output.len() == input.len()
    &&& order.len() == input.len()
    &&& forall|k: int|
        0 <= k < order.len() ==> 0 <= #[trigger] order[k] < input.len() && output[k]
            == input[order[k]]
    &&& forall|i: int, j: int|
        0 <= i < j < order.len() ==> #[trigger] order[i] != #[trigger] order[j]
    &&& forall|i: int| 0 <= i < input.len() ==> #[trigger] order.contains(i)
    &&& sorted_by_date(output)
    &&& forall|i: int, j: int|
        0 <= i < j < output.len() && (#[trigger] output[i]).date == (#[trigger] output[j]).date
            ==> order[i] < order[j]
}

/// Whether the string `a` is at most the string `b`.
pub fn date_le(a: &str, b: &str) -> (le: bool)
    ensures
        le == lex_le(a@, b@),
{
    let x = to_chars(a);
    let y = to_chars(b);
    let mut i: usize = 0;
    assert(x@.skip(0) =~= x@);
    assert(y@.skip(0) =~= y@);
    while i < x.len() && i < y.len() && x[i] == y[i]
        invariant
            i <= x.len(),
            i <= y.len(),
            lex_le(x@, y@) == lex_le(x@.skip(i as int), y@.skip(i as int)),
        decreases x.len() - i,
    {
        proof {
            assert(x@.skip(i as int).skip(1) =~= x@.skip(i + 1));
            assert(y@.skip(i as int).skip(1) =~= y@.skip(i + 1));
        }
        i = i + 1;
    }
    if i == x.len() {
        true
    } else if i == y.len() {
        false
    } else {
        (x[i] as u32) < (y[i] as u32)
    }
}

/// Puts `article` into the list, before the articles at the end of the list
/// whose date is greater than its own, and returns the position that it got.
/// In a list that is sorted by date, that is behind every article whose date
/// is at most its own, and the list stays sorted.
pub fn insert_by_date(sorted: &mut Vec<Article>, article: Article) -> (position: usize)
    ensures
        position <= old(sorted)@.len(),
        articles_view(final(sorted)@) == articles_view(old(sorted)@).insert(
            position as int,
            article@,
        ),
        position > 0 ==> lex_le(old(sorted)@[position - 1]@.date, article@.date),
        forall|i: int|
            position <= i < old(sorted)@.len() ==> !lex_le(
                (#[trigger] old(sorted)@[i])@.date,
                article@.date,
            ),
        sorted_by_date(articles_view(old(sorted)@)) ==> {
            &&& forall|i: int|
                0 <= i < position ==> lex_le((#[trigger] old(sorted)@[i])@.date, article@.date)
            &&& sorted_by_date(articles_view(final(sorted)@))
        },
{
    let ghost before = articles_view(sorted@);
    let mut position: usize = sorted.len();
    while position > 0 && !date_le(sorted[position - 1].date.as_str(), article.date.as_str())
        invariant
            position <= sorted.len(),
            *sorted == *old(sorted),
            forall|i: int|
                position <= i < sorted@.len() ==> !lex_le(
                    (#[trigger] sorted@[i])@.date,
                    article@.date,
                ),
        decreases position,
    {
        position = position - 1;
    }
    proof {
        if sorted_by_date(before) {
            assert forall|i: int| 0 <= i < position implies lex_le(
                (#[trigger] sorted@[i])@.date,
                article@.date,
            ) by {
                let last = position - 1;
                assert(before[i] == sorted@[i]@);
                assert(before[last] == sorted@[last]@);
                if i < last {
                    lemma_lex_le_transitive(sorted@[i]@.date, sorted@[last]@.date, article@.date);
                }
            }
            let after = before.insert(position as int, article@);
            assert forall|i: int, j: int| 0 <= i < j < after.len() implies lex_le(
                (#[trigger] after[i]).date,
                (#[trigger] after[j]).date,
            ) by {
                if j == position {
                    assert(before[i] == sorted@[i]@);
                } else if i == position {
                    assert(before[j - 1] == sorted@[j - 1]@);
                    lemma_lex_le_total(article@.date, sorted@[j - 1]@.date);
                } else {
                    let bi = if i < position { i } else { i - 1 };
                    let bj = if j < position { j } else { j - 1 };
                    assert(lex_le(before[bi].date, before[bj].date));
                }
            }
        }
    }
    sorted.insert(position, article);
    assert(articles_view(sorted@) =~= before.insert(position as int, article@));
    position
}

/// Inserting the next article of the input at the position that
/// [`insert_by_date`] picks keeps the output a stable sort of what was read.
proof fn lemma_insert_extends_stable_sort(
    input: Seq<ArticleView>,
    read: int,
    output: Seq<ArticleView>,
    order: Seq<int>,
    position: int,
)
    requires
        0 <= read < input.len(),
        is_stable_sort(input.take(read), output, order),
        0 <= position <= output.len(),
        forall|i: int| 0 <= i < position ==> lex_le((#[trigger] output[i]).date, input[read].date),
        forall|i: int|
            position <= i < output.len() ==> !lex_le((#[trigger] output[i]).date, input[read].date),
    ensures
        is_stable_sort(
            input.take(read + 1),
            output.insert(position, input[read]),
            order.insert(position, read),
        ),
{
    let new_input = input.take(read + 1);
    let new_output = output.insert(position, input[read]);
    let new_order = order.insert(position, read);
    let old_index = |k: int| if k < position { k } else { k - 1 };
    assert forall|k: int| 0 <= k < new_order.len() implies 0 <= #[trigger] new_order[k]
        < new_input.len() && new_output[k] == new_input[new_order[k]] by {
        if k != position {
            assert(0 <= order[old_index(k)] < read);
            assert(output[old_index(k)] == input.take(read)[order[old_index(k)]]);
        }
    }
    assert forall|i: int, j: int| 0 <= i < j < new_order.len() implies #[trigger] new_order[i]
        != #[trigger] new_order[j] by {
        if i != position {
            assert(0 <= order[old_index(i)] < read);
        }
        if j != position {
            assert(0 <= order[old_index(j)] < read);
        }
        if i != position && j != position {
            assert(order[old_index(i)] != order[old_index(j)]);
        }
    }
    assert forall|i: int| 0 <= i < new_input.len() implies #[trigger] new_order.contains(i) by {
        if i == read {
            assert(new_order[position] == i);
        } else {
            assert(order.contains(i));
            let k = choose|k: int| 0 <= k < order.len() && order[k] == i;
            let moved = if k < position {
                k
            } else {
                k + 1
            };
            assert(new_order[moved] == i);
        }
    }
    assert forall|i: int, j: int| 0 <= i < j < new_output.len() implies lex_le(
        (#[trigger] new_output[i]).date,
        (#[trigger] new_output[j]).date,
    ) by {
        if j == position {
            assert(lex_le(output[i].date, input[read].date));
        } else if i == position {
            lemma_lex_le_total(input[read].date, output[j - 1].date);
        } else {
            assert(lex_le(output[old_index(i)].date, output[old_index(j)].date));
        }
    }
    assert forall|i: int, j: int|
        0 <= i < j < new_output.len() && (#[trigger] new_output[i]).date == (
        #[trigger] new_output[j]).date implies new_order[i] < new_order[j] by {
        if j == position {
            assert(0 <= order[old_index(i)] < read);
        } else if i == position {
            lemma_lex_le_reflexive(input[read].date);
            assert(!lex_le(output[j - 1].date, input[read].date));
        } else {
            assert(output[old_index(i)].date == output[old_index(j)].date);
            assert(order[old_index(i)] < order[old_index(j)]);
        }
    }
}

/// Two stable sorts of one input put the same article at every position.
proof fn lemma_orders_agree(
    input: Seq<ArticleView>,
    first: Seq<ArticleView>,
    first_order: Seq<int>,
    second: Seq<ArticleView>,
    second_order: Seq<int>,
    k: int,
)
    requires
        is_stable_sort(input, first, first_order),
        is_stable_sort(input, second, second_order),
        0 <= k < input.len(),
    ensures
        first_order[k] == second_order[k],
    decreases k,
{
    let a = first_order[k];
    let b = second_order[k];
    if a != b {
        assert(second_order.contains(a));
        assert(first_order.contains(b));
        let in_second = choose|i: int| 0 <= i < second_order.len() && second_order[i] == a;
        let in_first = choose|i: int| 0 <= i < first_order.len() && first_order[i] == b;
        if in_second < k {
            lemma_orders_agree(input, first, first_order, second, second_order, in_second);
            assert(first_order[in_second] != first_order[k]);
        } else if in_first < k {
            lemma_orders_agree(input, first, first_order, second, second_order, in_first);
            assert(second_order[in_first] != second_order[k]);
        } else {
            assert(first[k] == input[a] && first[in_first] == input[b]);
            assert(second[k] == input[b] && second[in_second] == input[a]);
            assert(lex_le(first[k].date, first[in_first].date));
            assert(lex_le(second[k].date, second[in_second].date));
            lemma_lex_le_antisymmetric(input[a].date, input[b].date);
            assert(first_order[k] < first_order[in_first]);
            assert(second_order[k] < second_order[in_second]);
        }
    }
}

/// The sorted list is determined by the input: two lists that are both a
/// stable sort of one input are the same list, article for article. So the
/// position of an article, from which its paths are named, is the same in
/// every run on the same input.
pub proof fn lemma_stable_sort_is_unique(
    input: Seq<ArticleView>,
    first: Seq<ArticleView>,
    first_order: Seq<int>,
    second: Seq<ArticleView>,
    second_order: Seq<int>,
)
    requires
        is_stable_sort(input, first, first_order),
        is_stable_sort(input, second, second_order),
    ensures
        first == second,
        first_order == second_order,
{
    assert forall|k: int| 0 <= k < input.len() implies first_order[k] == second_order[k]
        && first[k] == second[k] by {
        lemma_orders_agree(input, first, first_order, second, second_order, k);
    }
    assert(first_order =~= second_order);
    assert(first =~= second);
}

/// Sorts the articles by date; articles with the same date keep their order.
pub fn sort_by_date(articles: Vec<Article>) -> (sorted: Vec<Article>)
    ensures
        exists|order: Seq<int>|
            is_stable_sort(articles_view(articles@), articles_view(sorted@), order),
{
    let ghost input = articles_view(articles@);
    let ghost mut order: Seq<int> = Seq::empty();
    let mut sorted: Vec<Article> = Vec::new();
    assert(input.take(0) =~= Seq::<ArticleView>::empty());
    assert(articles_view(sorted@) =~= Seq::<ArticleView>::empty());
    for article in it: articles
        invariant
            it.seq() == articles@,
            input == articles_view(articles@),
            is_stable_sort(input.take(it.index()), articles_view(sorted@), order),
    {
        let ghost read = it.index();
        let ghost previous = sorted@;
        let ghost output = articles_view(sorted@);
        assert(article@ == input[read]);
        let position = insert_by_date(&mut sorted, article);
        proof {
            assert forall|i: int| 0 <= i < position implies lex_le(
                (#[trigger] output[i]).date,
                input[read].date,
            ) by {
                assert(output[i] == previous[i]@);
            }
            assert forall|i: int| position <= i < output.len() implies !lex_le(
                (#[trigger] output[i]).date,
                input[read].date,
            ) by {
                assert(output[i] == previous[i]@);
            }
            lemma_insert_extends_stable_sort(input, read, output, order, position as int);
            order = order.insert(position as int, read);
        }
    }
    assert(input.take(input.len() as int) =~= input);
    sorted
}

} // verus!
