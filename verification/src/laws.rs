//! What holds of the grammar and of the reader as a whole.

use crate::chars::{close_paren, delimiter, digit, matching_parens, open_paren};
use crate::error::{Fault, ReadError};
use crate::grammar::{
    lemma_item_takes_a_character, lemma_list_items_stop, lemma_list_stops, lemma_sexp_stops,
    lemma_skip_whitespace_stops, lemma_string_body_stops, lemma_symbol_end_stops, list_at,
    list_items_at, sexp_at, skip_whitespace, string_body_at, Parsed,
};
use crate::parser::{outcome, tree_result, SExpParser};
use crate::sexp::{lemma_list_holds_its_items, SExp, SExpView};
use vstd::prelude::*;

verus! {

/// The items of a list lie in `s` from `from` up to `close`: item `k` begins
/// at `starts[k]`, does not begin with a closing bracket, reads as `items[k]`
/// and stops at `ends[k]`; before each item, and between the last one and
/// `close`, lies whitespace only; and a closing bracket stands at `close`.
pub open spec fn laid_out(
    s: Seq<char>,
    from: int,
    starts: Seq<int>,
    ends: Seq<int>,
    items: Seq<SExpView>,
    close: int,
) -> bool {
    &&& 0 <= from <= s.len()
    &&& starts.len() == items.len()
    &&& ends.len() == items.len()
    &&& forall|k: int|
        0 <= k < items.len() ==> {
            &&& #[trigger] starts[k] == skip_whitespace(
                s,
                if k == 0 {
                    from
                } else {
                    ends[k - 1]
                },
            )
            &&& 0 <= starts[k] < s.len()
            &&& !close_paren(s[starts[k]])
            &&& sexp_at(s, starts[k]) == (Parsed::Done { value: items[k], end: ends[k] })
        }
    &&& close == skip_whitespace(
        s,
        if items.len() == 0 {
            from
        } else {
            ends[items.len() - 1]
        },
    )
    &&& 0 <= close < s.len()
    &&& close_paren(s[close])
}

/// Items that lie one after another, with whitespace only around them, up to
/// a closing bracket are read as the chain that holds them in order.
pub proof fn lemma_items_read_in_order(
    s: Seq<char>,
    from: int,
    starts: Seq<int>,
    ends: Seq<int>,
    items: Seq<SExpView>,
    close: int,
)
    requires
        laid_out(s, from, starts, ends, items, close),
    ensures
        list_items_at(s, from) == (Parsed::Done { value: SExpView::list(items), end: close }),
    decreases items.len(),
{
    if items.len() > 0 {
        lemma_item_takes_a_character(s, starts[0]);
        let rest_starts = starts.drop_first();
        let rest_ends = ends.drop_first();
        let rest_items = items.drop_first();
        assert forall|k: int| 0 <= k < rest_items.len() implies {
            &&& #[trigger] rest_starts[k] == skip_whitespace(
                s,
                if k == 0 {
                    ends[0]
                } else {
                    rest_ends[k - 1]
                },
            )
            &&& 0 <= rest_starts[k] < s.len()
            &&& !close_paren(s[rest_starts[k]])
            &&& sexp_at(s, rest_starts[k]) == (Parsed::Done {
                value: rest_items[k],
                end: rest_ends[k],
            })
        } by {
            assert(rest_starts[k] == starts[k + 1]);
        }
        lemma_items_read_in_order(s, ends[0], rest_starts, rest_ends, rest_items, close);
    }
}

/// A list whose items lie one after another between an opening bracket and
/// its partner, with whitespace only around them, is read as a chain of
/// `Cons` cells that has one cell for each item and holds the items in the
/// order of the text. Reading stops at the closing bracket.
///
/// An item that is itself a list stops at its own closing bracket, which is
/// then also the first closing bracket that the enclosing list meets: such an
/// item can only be the last one laid out.
pub proof fn lemma_list_reads_its_items(
    s: Seq<char>,
    open: int,
    starts: Seq<int>,
    ends: Seq<int>,
    items: Seq<SExpView>,
    close: int,
)
    requires
        0 <= open < s.len(),
        laid_out(s, open + 1, starts, ends, items, close),
        matching_parens(s[open], s[close]),
    ensures
        list_at(s, open) == (Parsed::Done { value: SExpView::list(items), end: close }),
        sexp_at(s, open) == list_at(s, open),
        SExpView::list(items).is_list(),
        SExpView::list(items).items().len() == items.len(),
        SExpView::list(items).items() == items,
{
    lemma_items_read_in_order(s, open + 1, starts, ends, items, close);
    lemma_list_holds_its_items(items);
}

/// A list whose closing bracket is of another kind than its opening bracket
/// fails with `ParenMismatch`, which names both brackets, at the closing one.
pub proof fn lemma_mismatch_is_reported(s: Seq<char>, open: int)
    requires
        0 <= open < s.len(),
        open_paren(s[open]),
        list_items_at(s, open + 1) is Done,
        !matching_parens(s[open], s[list_items_at(s, open + 1).stop()]),
    ensures
        sexp_at(s, open) == (Parsed::<SExpView>::Failed {
            fault: Fault::ParenMismatch {
                open: s[open],
                close: s[list_items_at(s, open + 1).stop()],
            },
            at: list_items_at(s, open + 1).stop(),
        }),
{
    lemma_list_items_stop(s, open + 1);
}

/// A list that is read never stops at the end of the text: where the text
/// ends before the closing bracket, reading fails with `EarlyEOF`.
pub proof fn lemma_truncated_list_fails(s: Seq<char>, i: int)
    requires
        0 <= i <= s.len(),
        list_at(s, i).stop() == s.len(),
    ensures
        list_at(s, i) == (Parsed::<SExpView>::Failed {
            fault: Fault::EarlyEof,
            at: s.len() as int,
        }),
{
    lemma_failure_at_end(s, i);
    lemma_list_stops(s, i);
}

/// A failure that is met at the end of the text is `EarlyEOF`, and `EarlyEOF`
/// is met nowhere else.
pub proof fn lemma_failure_at_end(s: Seq<char>, i: int)
    requires
        0 <= i <= s.len(),
    ensures
        sexp_at(s, i) matches Parsed::Failed { fault, at } ==> (fault == Fault::EarlyEof <==> at
            == s.len()),
        list_at(s, i) matches Parsed::Failed { fault, at } ==> (fault == Fault::EarlyEof <==> at
            == s.len()),
        list_items_at(s, i) matches Parsed::Failed { fault, at } ==> (fault == Fault::EarlyEof
            <==> at == s.len()),
{
    if i < s.len() {
        lemma_string_body_stops(s, i + 1);
        lemma_list_items_stop(s, i + 1);
        lemma_failure_in_items(s, i + 1);
    }
    lemma_failure_in_items(s, i);
}

/// The same, of the items of a list.
proof fn lemma_failure_in_items(s: Seq<char>, i: int)
    requires
        0 <= i <= s.len(),
    ensures
        list_items_at(s, i) matches Parsed::Failed { fault, at } ==> (fault == Fault::EarlyEof
            <==> at == s.len()),
    decreases s.len() - i,
{
    lemma_skip_whitespace_stops(s, i);
    let j = skip_whitespace(s, i);
    if j < s.len() && !close_paren(s[j]) {
        lemma_sexp_stops(s, j);
        if open_paren(s[j]) {
            lemma_list_items_stop(s, j + 1);
            lemma_failure_in_items(s, j + 1);
        }
        lemma_string_body_stops(s, j + 1);
        if let Parsed::Done { end, .. } = sexp_at(s, j) {
            lemma_item_takes_a_character(s, j);
            lemma_failure_in_items(s, end);
        }
    }
}

/// An expression that begins with `-` or with a digit fails with
/// `NotImplemented`, and nothing is consumed.
pub proof fn lemma_number_is_not_implemented(s: Seq<char>, i: int)
    requires
        0 <= i < s.len(),
        s[i] == '-' || digit(s[i]),
    ensures
        sexp_at(s, i) == (Parsed::<SExpView>::Failed { fault: Fault::NotImplemented, at: i }),
{
}

/// A run of characters that holds no delimiter, does not begin with `-` or a
/// digit, and is followed by a delimiter or by the end of the text is read as
/// the symbol of these characters; what follows it stays unread.
pub proof fn lemma_symbol_is_read(s: Seq<char>, i: int, j: int)
    requires
        0 <= i < j <= s.len(),
        forall|k: int| i <= k < j ==> !delimiter(#[trigger] s[k]),
        j < s.len() ==> delimiter(s[j]),
        s[i] != '-' && !digit(s[i]),
    ensures
        sexp_at(s, i) == (Parsed::Done { value: SExpView::Symbol(s.subrange(i, j)), end: j }),
{
    lemma_symbol_end_stops(s, i);
}

/// A quoted run of characters that holds neither a quote nor a backslash is
/// read as the string of these characters, and the closing quote is consumed.
pub proof fn lemma_plain_string_is_read(s: Seq<char>, i: int, j: int)
    requires
        0 <= i < j < s.len(),
        s[i] == '"',
        s[j] == '"',
        forall|k: int| i < k < j ==> #[trigger] s[k] != '"' && s[k] != '\\',
    ensures
        sexp_at(s, i) == (Parsed::Done {
            value: SExpView::String(s.subrange(i + 1, j)),
            end: j + 1,
        }),
{
    lemma_plain_string_body(s, i + 1, j);
}

proof fn lemma_plain_string_body(s: Seq<char>, i: int, j: int)
    requires
        0 <= i <= j < s.len(),
        s[j] == '"',
        forall|k: int| i <= k < j ==> #[trigger] s[k] != '"' && s[k] != '\\',
    ensures
        string_body_at(s, i) == (Parsed::Done { value: s.subrange(i, j), end: j + 1 }),
    decreases j - i,
{
    if i < j {
        lemma_plain_string_body(s, i + 1, j);
        assert(seq![s[i]] + s.subrange(i + 1, j) =~= s.subrange(i, j));
    } else {
        assert(s.subrange(i, j) =~= Seq::<char>::empty());
    }
}

/// Reading the same text from the same offset twice gives the same outcome:
/// trees of equal value or equal faults, and the same stopping offset. Under
/// the same file name the errors are equal as well.
///
/// `first` and `second` stand for what two calls of `read_sexp` return, and
/// the readers for their states before and after the calls.
pub proof fn lemma_rereading_gives_equal_trees(
    before1: SExpParser,
    after1: SExpParser,
    first: Result<SExp, ReadError>,
    before2: SExpParser,
    after2: SExpParser,
    second: Result<SExp, ReadError>,
)
    requires
        before1.input() == before2.input(),
        before1.offset() == before2.offset(),
        after1.offset() == sexp_at(before1.input(), before1.offset()).stop(),
        tree_result(first) == outcome(
            sexp_at(before1.input(), before1.offset()),
            before1.file(),
            before1.input(),
        ),
        after2.offset() == sexp_at(before2.input(), before2.offset()).stop(),
        tree_result(second) == outcome(
            sexp_at(before2.input(), before2.offset()),
            before2.file(),
            before2.input(),
        ),
    ensures
        after1.offset() == after2.offset(),
        first is Ok <==> second is Ok,
        first matches Ok(t1) ==> second matches Ok(t2) && t1@ == t2@,
        before1.file() == before2.file() ==> tree_result(first) == tree_result(second),
{
}

} // verus!
