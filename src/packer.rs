use vstd::prelude::*;
use vstd::utf8::encode_utf8;
use crate::entry::{EntryKind, RenderToken, token_views};

verus! {

/// A token as the contracts see it: its display name and its type.
pub type TokenView = (Seq<char>, EntryKind);

/// A column as the contracts see it: its tokens, top to bottom, and the
/// width it was given.
pub type ColumnView = (Seq<TokenView>, usize);

/// The width of a name on screen: its length in UTF-8 bytes.
pub open spec fn width(name: Seq<char>) -> usize {
    encode_utf8(name).len() as usize
}

/// The widest name among `items`, or 0 for none.
pub open spec fn max_width(items: Seq<TokenView>) -> usize
    decreases items.len(),
{
    if items.len() == 0 {
        0
    } else {
        let prev = max_width(items.drop_last());
        let w = width(items.last().0);
        if w > prev {
            w
        } else {
            prev
        }
    }
}

/// Whether a column of `count` items fills a terminal of `height` rows,
/// three of which stay free for the prompt. A terminal under three rows
/// puts no limit on a column.
pub open spec fn is_full(count: int, height: usize) -> bool {
    height >= 3 && count >= height - 3
}

/// A column of the layout.
#[derive(Debug)]
pub struct Column {
    pub items: Vec<RenderToken>,
    pub item_max_size: usize,
}

impl View for Column {
    type V = ColumnView;

    open spec fn view(&self) -> ColumnView {
        (token_views(self.items@), self.item_max_size)
    }
}

impl Clone for Column {
    fn clone(&self) -> (r: Column)
        ensures
            r@ == self@,
    {
        let mut items: Vec<RenderToken> = Vec::new();
        let mut i: usize = 0;
        while i < self.items.len()
            invariant
                i <= self.items@.len(),
                items@.len() == i,
                forall|j: int| 0 <= j < i ==> #[trigger] items@[j]@ == self.items@[j]@,
            decreases self.items@.len() - i,
        {
            let t = self.items[i].clone();
            assert(t@ == self.items@[i as int]@);
            items.push(t);
            i = i + 1;
        }
        assert(token_views(items@) =~= token_views(self.items@));
        Column { items, item_max_size: self.item_max_size }
    }
}

impl Column {
    pub fn new(items: Vec<RenderToken>, item_max_size: usize) -> (r: Column)
        ensures
            r@ == (token_views(items@), item_max_size),
    {
        Column { items, item_max_size }
    }
}

pub open spec fn column_views(s: Seq<Column>) -> Seq<ColumnView> {
    s.map_values(|c: Column| c@)
}

/// Where packing stands between two tokens: the columns so far, the summed
/// width of the columns that are full, and whether the last column still
/// takes tokens.
pub struct PackState {
    pub columns: Seq<ColumnView>,
    pub len_counter: int,
    pub filling: bool,
}

/// Places one token. With width left and no column open, the token opens a
/// new column. With a column open, it goes below the column's last token;
/// once the column is full its width counts against the terminal width and
/// it is closed. With no width left and no column open, the token is not
/// placed.
pub open spec fn pack_step(st: PackState, tok: TokenView, term_width: usize, term_height: usize) -> PackState {
    if st.len_counter <= term_width && !st.filling {
        PackState {
            columns: st.columns.push((seq![tok], width(tok.0))),
            len_counter: st.len_counter,
            filling: true,
        }
    } else if st.filling {
        let cur = st.columns.last();
        let items = cur.0.push(tok);
        let w = width(tok.0);
        let m = if w > cur.1 {
            w
        } else {
            cur.1
        };
        let columns = st.columns.update(st.columns.len() - 1, (items, m));
        if is_full(items.len() as int, term_height) {
            PackState { columns, len_counter: st.len_counter + m, filling: false }
        } else {
            PackState { columns, len_counter: st.len_counter, filling: true }
        }
    } else {
        st
    }
}

/// The state after packing all of `tokens`, in order.
pub open spec fn pack_state(tokens: Seq<TokenView>, term_width: usize, term_height: usize) -> PackState
    decreases tokens.len(),
{
    if tokens.len() == 0 {
        PackState { columns: seq![], len_counter: 0, filling: false }
    } else {
        pack_step(
            pack_state(tokens.drop_last(), term_width, term_height),
            tokens.last(),
            term_width,
            term_height,
        )
    }
}

/// The layout of `tokens` on a terminal of the given size.
pub open spec fn layout(tokens: Seq<TokenView>, term_width: usize, term_height: usize) -> Seq<ColumnView> {
    pack_state(tokens, term_width, term_height).columns
}

/// The facts about packing that the loop in `pack` carries along.
pub open spec fn state_ok(st: PackState, term_width: usize) -> bool {
    &&& 0 <= st.len_counter <= term_width + usize::MAX
    &&& st.filling ==> st.columns.len() > 0 && st.len_counter <= term_width
}

proof fn lemma_state_ok(tokens: Seq<TokenView>, term_width: usize, term_height: usize)
    ensures
        state_ok(pack_state(tokens, term_width, term_height), term_width),
    decreases tokens.len(),
{
    if tokens.len() > 0 {
        lemma_state_ok(tokens.drop_last(), term_width, term_height);
    }
}

/// Arranges `tokens` into columns for a terminal `term_width` columns wide
/// and `term_height` rows high.
pub fn pack(tokens: &Vec<RenderToken>, term_width: usize, term_height: usize) -> (r: Vec<Column>)
    ensures
        column_views(r@) == layout(token_views(tokens@), term_width, term_height),
{
    let mut columns: Vec<Column> = Vec::new();
    let mut len_counter: u128 = 0;
    let mut need_to_fill_col = false;
    let ghost toks = token_views(tokens@);
    let mut i: usize = 0;
    while i < tokens.len()
        invariant
            i <= tokens@.len(),
            toks == token_views(tokens@),
            ({
                let st = pack_state(toks.subrange(0, i as int), term_width, term_height);
                &&& column_views(columns@) == st.columns
                &&& len_counter as int == st.len_counter
                &&& need_to_fill_col == st.filling
                &&& state_ok(st, term_width)
            }),
        decreases tokens@.len() - i,
    {
        proof {
            let pre = toks.subrange(0, i as int);
            let post = toks.subrange(0, i + 1);
            assert(post.drop_last() =~= pre);
            lemma_state_ok(post, term_width, term_height);
        }
        let tok = tokens[i].clone();
        let w = tok.name.as_str().len();
        if len_counter <= term_width as u128 && !need_to_fill_col {
            let mut items: Vec<RenderToken> = Vec::new();
            items.push(tok);
            columns.push(Column::new(items, w));
            need_to_fill_col = true;
            proof {
                assert(token_views(items@) =~= seq![tokens@[i as int]@]);
                assert(column_views(columns@) =~= pack_state(toks.subrange(0, i + 1), term_width, term_height).columns);
            }
        } else if need_to_fill_col {
            let mut col = columns.pop().unwrap();
            let ghost old_col = col@;
            col.items.push(tok);
            if w > col.item_max_size {
                col.item_max_size = w;
            }
            let full = term_height >= 3 && col.items.len() >= term_height - 3;
            if full {
                len_counter = len_counter + col.item_max_size as u128;
                need_to_fill_col = false;
            }
            proof {
                assert(col@.0 =~= old_col.0.push(tokens@[i as int]@));
            }
            columns.push(col);
            proof {
                assert(column_views(columns@) =~= pack_state(toks.subrange(0, i + 1), term_width, term_height).columns);
            }
        }
        i = i + 1;
    }
    assert(toks.subrange(0, i as int) =~= toks);
    columns
}

/// A column holds at least one token, its width is that of its widest
/// token, and on a terminal of five rows or more it leaves three rows free.
pub open spec fn column_ok(c: ColumnView, term_height: usize) -> bool {
    &&& c.0.len() > 0
    &&& c.1 == max_width(c.0)
    &&& term_height >= 5 ==> c.0.len() <= term_height - 3
}

proof fn lemma_columns_ok(tokens: Seq<TokenView>, term_width: usize, term_height: usize)
    ensures
        ({
            let st = pack_state(tokens, term_width, term_height);
            &&& forall|k: int| 0 <= k < st.columns.len() ==> column_ok(#[trigger] st.columns[k], term_height)
            &&& st.filling && term_height >= 5 ==> st.columns.len() > 0 && st.columns.last().0.len() < term_height - 3
        }),
    decreases tokens.len(),
{
    if tokens.len() > 0 {
        let prev = pack_state(tokens.drop_last(), term_width, term_height);
        lemma_columns_ok(tokens.drop_last(), term_width, term_height);
        lemma_state_ok(tokens.drop_last(), term_width, term_height);
        let tok = tokens.last();
        let st = pack_state(tokens, term_width, term_height);
        if prev.len_counter <= term_width && !prev.filling {
            let one = seq![tok];
            assert(one.drop_last() =~= Seq::<TokenView>::empty());
            assert(max_width(Seq::<TokenView>::empty()) == 0);
            assert(max_width(one) == width(tok.0));
            assert(st.columns.last() == (one, width(tok.0)));
        } else if prev.filling {
            let cur = prev.columns.last();
            let items = cur.0.push(tok);
            assert(items.drop_last() =~= cur.0);
            assert(items.last() == tok);
            assert forall|k: int| 0 <= k < st.columns.len() implies column_ok(#[trigger] st.columns[k], term_height) by {
                if k < prev.columns.len() - 1 {
                    assert(st.columns[k] == prev.columns[k]);
                }
            }
        }
    }
}

/// Every column of a layout keeps its width equal to that of its widest
/// token, and holds no more tokens than the terminal has rows less three
/// (for terminals of at least five rows).
pub proof fn lemma_layout_columns(tokens: Seq<TokenView>, term_width: usize, term_height: usize)
    ensures
        forall|k: int|
            0 <= k < layout(tokens, term_width, term_height).len() ==> {
                let c = #[trigger] layout(tokens, term_width, term_height)[k];
                &&& c.1 == max_width(c.0)
                &&& term_height >= 5 ==> c.0.len() <= term_height - 3
            },
{
    lemma_columns_ok(tokens, term_width, term_height);
}

/// The layout depends on the tokens and the terminal size alone: two
/// results of `pack` on the same input are the same layout.
pub proof fn lemma_pack_deterministic(
    tokens: Seq<TokenView>,
    term_width: usize,
    term_height: usize,
    a: Seq<ColumnView>,
    b: Seq<ColumnView>,
)
    requires
        a == layout(tokens, term_width, term_height),
        b == layout(tokens, term_width, term_height),
    ensures
        a == b,
{
}

/// On a terminal of fewer than three rows, including one whose size is
/// unknown and read as 0 by 0, all tokens stand in a single column.
pub proof fn lemma_short_terminal_one_column(tokens: Seq<TokenView>, term_width: usize, term_height: usize)
    requires
        term_height < 3,
        tokens.len() > 0,
    ensures
        layout(tokens, term_width, term_height) == seq![(tokens, max_width(tokens))],
    decreases tokens.len(),
{
    let prev = tokens.drop_last();
    let tok = tokens.last();
    if prev.len() == 0 {
        assert(tokens =~= seq![tok]);
        assert(seq![tok].drop_last() =~= Seq::<TokenView>::empty());
        assert(max_width(Seq::<TokenView>::empty()) == 0);
        assert(pack_state(Seq::<TokenView>::empty(), term_width, term_height).len_counter == 0);
        assert(layout(tokens, term_width, term_height) =~= seq![(tokens, max_width(tokens))]);
    } else {
        lemma_short_terminal_one_column(prev, term_width, term_height);
        lemma_short_terminal_filling(prev, term_width, term_height);
        assert(prev.push(tok) =~= tokens);
        assert(layout(tokens, term_width, term_height) =~= seq![(tokens, max_width(tokens))]);
    }
}

proof fn lemma_short_terminal_filling(tokens: Seq<TokenView>, term_width: usize, term_height: usize)
    requires
        term_height < 3,
        tokens.len() > 0,
    ensures
        pack_state(tokens, term_width, term_height).filling,
        pack_state(tokens, term_width, term_height).len_counter == 0,
    decreases tokens.len(),
{
    if tokens.drop_last().len() > 0 {
        lemma_short_terminal_filling(tokens.drop_last(), term_width, term_height);
    } else {
        assert(tokens.drop_last() =~= Seq::<TokenView>::empty());
        assert(pack_state(Seq::<TokenView>::empty(), term_width, term_height).len_counter == 0);
    }
}

/// The tokens of a layout read column by column, each top to bottom.
pub open spec fn flatten(columns: Seq<ColumnView>) -> Seq<TokenView>
    decreases columns.len(),
{
    if columns.len() == 0 {
        seq![]
    } else {
        flatten(columns.drop_last()) + columns.last().0
    }
}

proof fn lemma_flatten_order(tokens: Seq<TokenView>, term_width: usize, term_height: usize)
    ensures
        ({
            let st = pack_state(tokens, term_width, term_height);
            let f = flatten(st.columns);
            ||| f == tokens
            ||| f.len() < tokens.len() && f == tokens.subrange(0, f.len() as int) && !st.filling
                && st.len_counter > term_width
        }),
    decreases tokens.len(),
{
    if tokens.len() > 0 {
        let prev_toks = tokens.drop_last();
        let tok = tokens.last();
        lemma_flatten_order(prev_toks, term_width, term_height);
        lemma_state_ok(prev_toks, term_width, term_height);
        let prev = pack_state(prev_toks, term_width, term_height);
        let st = pack_state(tokens, term_width, term_height);
        let f = flatten(prev.columns);
        if prev.len_counter <= term_width && !prev.filling {
            assert(st.columns.drop_last() =~= prev.columns);
            assert(flatten(st.columns) =~= tokens);
        } else if prev.filling {
            let cur = prev.columns.last();
            assert(st.columns.drop_last() =~= prev.columns.drop_last());
            assert(flatten(prev.columns) == flatten(prev.columns.drop_last()) + cur.0);
            assert(f == prev_toks);
            assert(st.columns.last().0 == cur.0.push(tok));
            assert(tokens =~= prev_toks.push(tok));
            assert(flatten(st.columns) == flatten(st.columns.drop_last()) + st.columns.last().0);
            assert(flatten(st.columns) =~= tokens);
        } else {
            assert(f =~= tokens.subrange(0, f.len() as int));
        }
    }
}

/// Packing keeps the order of the tokens: read column after column, the
/// layout gives the tokens in input order. Either every token is placed, or
/// the placed ones are a leading part of the input and the rest found no
/// width left on the terminal.
pub proof fn lemma_layout_keeps_order(tokens: Seq<TokenView>, term_width: usize, term_height: usize)
    ensures
        ({
            let f = flatten(layout(tokens, term_width, term_height));
            &&& f.len() <= tokens.len()
            &&& f == tokens.subrange(0, f.len() as int)
            &&& f.len() < tokens.len() ==> pack_state(tokens, term_width, term_height).len_counter
                > term_width
        }),
{
    lemma_flatten_order(tokens, term_width, term_height);
    if flatten(layout(tokens, term_width, term_height)) == tokens {
        assert(tokens.subrange(0, tokens.len() as int) =~= tokens);
    }
}

} // verus!
