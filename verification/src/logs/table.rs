use vstd::prelude::*;
use vstd::pervasive::VecAdditionalExecFns;
use vstd::string::StrSliceExecFns;
use vstd::string::StringExecFns;

use crate::can::decoder::catalog;
use crate::can::decoder::parser_defs;
use crate::can::decoder::MessageDef;
use crate::can::decoder::MessageDefView;
use crate::can::decoder::SignalValueView;
use crate::logs::consts::BIN_WIDTH_MS;
use crate::logs::consts::MAX_JUMP_MS;
use crate::logs::parse::LogMessage;
use crate::logs::parse::LogMessageView;
use crate::text::output_file_name;
use crate::text::seconds_5dp;
use crate::text::spec_file_name;
use crate::text::spec_seconds_5dp;

verus! {

// ---------------------------------------------------------------------
// CSV rendering
// ---------------------------------------------------------------------
/// A cell must be quoted when it holds a comma, a quote or a newline.
pub open spec fn spec_needs_quote(s: Seq<char>) -> bool {
    s.contains(',') || s.contains('"') || s.contains('\n')
}

/// One character of a quoted cell body: quotes are doubled.
pub open spec fn spec_esc_char(c: char) -> Seq<char> {
    if c == '"' {
        seq!['"', '"']
    } else {
        seq![c]
    }
}

/// The first `n` characters of a cell, each escaped.
pub open spec fn spec_escape_prefix(s: Seq<char>, n: int) -> Seq<char>
    decreases n,
{
    if n <= 0 {
        Seq::empty()
    } else {
        spec_escape_prefix(s, n - 1) + spec_esc_char(s[n - 1])
    }
}

/// A rendered CSV field: wrapped in quotes with internal quotes
/// doubled when it needs quoting, written as it stands otherwise.
pub open spec fn spec_escape_cell(s: Seq<char>) -> Seq<char> {
    if spec_needs_quote(s) {
        seq!['"'] + spec_escape_prefix(s, s.len() as int) + seq!['"']
    } else {
        s
    }
}

/// The first `n` cells rendered and joined with commas.
pub open spec fn spec_join_prefix(cells: Seq<Seq<char>>, n: int) -> Seq<char>
    decreases n,
{
    if n <= 0 {
        Seq::empty()
    } else {
        spec_join_prefix(cells, n - 1) + (if n == 1 {
            Seq::<char>::empty()
        } else {
            seq![',']
        }) + spec_escape_cell(cells[n - 1])
    }
}

/// One CSV line: the cells rendered, comma separated, newline ended.
pub open spec fn spec_join_row(cells: Seq<Seq<char>>) -> Seq<char> {
    spec_join_prefix(cells, cells.len() as int) + seq!['\n']
}

/// The contents of a sequence of strings.
pub open spec fn cells_view(cells: Seq<String>) -> Seq<Seq<char>> {
    Seq::new(cells.len(), |i: int| cells[i]@)
}

/// Whether a cell holds a character that forces quoting.
fn contains_special(s: &str) -> (r: bool)
    ensures
        r == spec_needs_quote(s@),
{
    let n = s.unicode_len();
    let mut i: usize = 0;
    while i < n
        invariant
            n == s@.len(),
            i <= n,
            forall|k: int| 0 <= k < i ==> s@[k] != ',' && s@[k] != '"' && s@[k] != '\n',
        decreases n - i,
    {
        let c = s.get_char(i);
        if c == ',' || c == '"' || c == '\n' {
            proof {
                assert(s@[i as int] == c);
            }
            return true;
        }
        i += 1;
    }
    proof {
        if s@.contains(',') {
            let k = choose|k: int| 0 <= k < s@.len() && s@[k] == ',';
            assert(false);
        }
        if s@.contains('"') {
            let k = choose|k: int| 0 <= k < s@.len() && s@[k] == '"';
            assert(false);
        }
        if s@.contains('\n') {
            let k = choose|k: int| 0 <= k < s@.len() && s@[k] == '\n';
            assert(false);
        }
    }
    false
}

/// Appends one rendered CSV field to the line under construction.
fn escape_append(out: &mut String, cell: &str)
    ensures
        final(out)@ == old(out)@ + spec_escape_cell(cell@),
{
    if contains_special(cell) {
        proof {
            reveal_strlit("\"");
        }
        out.append("\"");
        proof {
            assert(out@ =~= old(out)@ + seq!['"'] + spec_escape_prefix(cell@, 0));
        }
        let n = cell.unicode_len();
        let mut i: usize = 0;
        while i < n
            invariant
                n == cell@.len(),
                i <= n,
                spec_needs_quote(cell@),
                out@ == old(out)@ + seq!['"'] + spec_escape_prefix(cell@, i as int),
            decreases n - i,
        {
            let c = cell.get_char(i);
            if c == '"' {
                out.append("\"\"");
                proof {
                    reveal_strlit("\"\"");
                    assert("\"\""@ =~= seq!['"', '"']);
                }
            } else {
                let piece = cell.substring_char(i, i + 1);
                out.append(piece);
                proof {
                    assert(piece@ =~= seq![cell@[i as int]]);
                }
            }
            i += 1;
            proof {
                assert(out@ =~= old(out)@ + seq!['"'] + spec_escape_prefix(cell@, i as int));
            }
        }
        proof {
            reveal_strlit("\"");
        }
        out.append("\"");
        proof {
            assert(out@ =~= old(out)@ + spec_escape_cell(cell@));
        }
    } else {
        out.append(cell);
    }
}

/// Renders one CSV line from a row of cells: commas between fields,
/// quoting where a field needs it, a newline at the end.
pub fn join_csv_row(cells: &[String]) -> (r: String)
    ensures
        r@ == spec_join_row(cells_view(cells@)),
{
    let mut out = String::new();
    let n = cells.len();
    let mut i: usize = 0;
    while i < n
        invariant
            n == cells@.len(),
            i <= n,
            out@ == spec_join_prefix(cells_view(cells@), i as int),
        decreases n - i,
    {
        if i > 0 {
            out.append(",");
            proof {
                reveal_strlit(",");
                assert(","@ =~= seq![',']);
            }
        }
        escape_append(&mut out, cells[i].as_str());
        i += 1;
        proof {
            assert(out@ =~= spec_join_prefix(cells_view(cells@), i as int));
        }
    }
    out.append("\n");
    proof {
        reveal_strlit("\n");
        assert(out@ =~= spec_join_row(cells_view(cells@)));
    }
    out
}

// ---------------------------------------------------------------------
// Sorting the catalog
// ---------------------------------------------------------------------
/// The sort key of a message definition: primarily the numeric id with
/// the extended flag bit stripped, the raw id breaking ties so that
/// definitions with distinct raw ids always order strictly.
pub open spec fn spec_sort_key(m: MessageDefView) -> u64 {
    (((m.id & 0x7FFF_FFFF) as u64) << 32) | (m.id as u64)
}

/// Computes the sort key of a message definition.
fn sort_key(m: &MessageDef) -> (r: u64)
    ensures
        r == spec_sort_key(m@),
{
    (((m.id & 0x7FFF_FFFF) as u64) << 32) | (m.id as u64)
}

/// A definition placed into an already sorted sequence, before the
/// first entry whose key is at least its own.
pub open spec fn spec_insert_sorted(m: MessageDefView, s: Seq<MessageDefView>) -> Seq<
    MessageDefView,
>
    decreases s.len(),
{
    if s.len() == 0 {
        seq![m]
    } else if spec_sort_key(m) <= spec_sort_key(s[0]) {
        seq![m] + s
    } else {
        seq![s[0]] + spec_insert_sorted(m, s.drop_first())
    }
}

/// The catalog sorted ascending by key, by repeated insertion.
pub open spec fn spec_sort_defs(s: Seq<MessageDefView>) -> Seq<MessageDefView>
    decreases s.len(),
{
    if s.len() == 0 {
        Seq::empty()
    } else {
        spec_insert_sorted(s[0], spec_sort_defs(s.drop_first()))
    }
}

/// Inserting before position `j` of a sequence whose first `j` keys
/// are strictly below the inserted key, and whose key at `j` (if any)
/// is at least it, splices the element in at `j`.
proof fn lemma_insert_sorted_at(m: MessageDefView, s: Seq<MessageDefView>, j: int)
    requires
        0 <= j <= s.len(),
        forall|k: int| 0 <= k < j ==> spec_sort_key(#[trigger] s[k]) < spec_sort_key(m),
        j < s.len() ==> spec_sort_key(m) <= spec_sort_key(s[j]),
    ensures
        spec_insert_sorted(m, s) =~= s.take(j) + seq![m] + s.skip(j),
    decreases j,
{
    if j == 0 {
        assert(spec_insert_sorted(m, s) =~= s.take(0) + seq![m] + s.skip(0));
    } else {
        assert(s.drop_first().take(j - 1) =~= s.take(j).drop_first());
        assert(s.drop_first().skip(j - 1) =~= s.skip(j));
        lemma_insert_sorted_at(m, s.drop_first(), j - 1);
        assert(spec_insert_sorted(m, s) =~= seq![s[0]] + spec_insert_sorted(m, s.drop_first()));
        assert(spec_insert_sorted(m, s) =~= s.take(j) + seq![m] + s.skip(j));
    }
}

/// Ascending by sort key.
pub open spec fn spec_sorted_by_key(s: Seq<MessageDefView>) -> bool {
    forall|i: int, j: int|
        0 <= i < j < s.len() ==> spec_sort_key(s[i]) <= spec_sort_key(s[j])
}

/// Equal sort keys come from equal raw ids: the raw id is the key's
/// low half.
proof fn lemma_key_id(a: MessageDefView, b: MessageDefView)
    requires
        spec_sort_key(a) == spec_sort_key(b),
    ensures
        a.id == b.id,
{
    let x = a.id;
    let y = b.id;
    assert(((((x & 0x7FFF_FFFF) as u64) << 32) | (x as u64)) == ((((y & 0x7FFF_FFFF) as u64) << 32)
        | (y as u64)) ==> x == y) by (bit_vector);
}

/// Membership in a sequence with one element placed in front.
proof fn lemma_cons_contains(m: MessageDefView, s: Seq<MessageDefView>, x: MessageDefView)
    ensures
        (seq![m] + s).contains(x) <==> (x == m || s.contains(x)),
{
    if (seq![m] + s).contains(x) {
        let i = choose|i: int| 0 <= i < (seq![m] + s).len() && (seq![m] + s)[i] == x;
        if i > 0 {
            assert(s[i - 1] == x);
        }
    }
    if x == m {
        assert((seq![m] + s)[0] == x);
    }
    if s.contains(x) {
        let i = choose|i: int| 0 <= i < s.len() && s[i] == x;
        assert((seq![m] + s)[i + 1] == x);
    }
}

/// Membership in an inserted-into sequence: exactly the inserted
/// element joins.
proof fn lemma_insert_sorted_contains(m: MessageDefView, s: Seq<MessageDefView>, x: MessageDefView)
    ensures
        spec_insert_sorted(m, s).contains(x) <==> (x == m || s.contains(x)),
    decreases s.len(),
{
    let r = spec_insert_sorted(m, s);
    if s.len() == 0 {
        if r.contains(x) {
            let i = choose|i: int| 0 <= i < r.len() && r[i] == x;
            assert(x == m);
        }
        if x == m {
            assert(r[0] == x);
        }
    } else if spec_sort_key(m) <= spec_sort_key(s[0]) {
        lemma_cons_contains(m, s, x);
    } else {
        let t = s.drop_first();
        lemma_insert_sorted_contains(m, t, x);
        lemma_cons_contains(s[0], spec_insert_sorted(m, t), x);
        lemma_cons_contains(s[0], t, x);
        assert(s =~= seq![s[0]] + t);
    }
}

/// Membership in a sorted sequence: exactly the input's elements.
proof fn lemma_sort_defs_contains(s: Seq<MessageDefView>, x: MessageDefView)
    ensures
        spec_sort_defs(s).contains(x) <==> s.contains(x),
    decreases s.len(),
{
    if s.len() == 0 {
        if spec_sort_defs(s).contains(x) {
            let i = choose|i: int| 0 <= i < spec_sort_defs(s).len() && spec_sort_defs(s)[i] == x;
            assert(false);
        }
        if s.contains(x) {
            let i = choose|i: int| 0 <= i < s.len() && s[i] == x;
            assert(false);
        }
    } else {
        let t = s.drop_first();
        lemma_sort_defs_contains(t, x);
        lemma_insert_sorted_contains(s[0], spec_sort_defs(t), x);
        lemma_cons_contains(s[0], t, x);
        assert(s =~= seq![s[0]] + t);
    }
}

/// Insertion keeps the length, the order and the absence of
/// duplicates.
proof fn lemma_insert_sorted_props(m: MessageDefView, s: Seq<MessageDefView>)
    ensures
        spec_insert_sorted(m, s).len() == s.len() + 1,
        spec_sorted_by_key(s) ==> spec_sorted_by_key(spec_insert_sorted(m, s)),
        s.no_duplicates() && !s.contains(m) ==> spec_insert_sorted(m, s).no_duplicates(),
    decreases s.len(),
{
    let r = spec_insert_sorted(m, s);
    if s.len() == 0 {
        assert(r.no_duplicates());
    } else if spec_sort_key(m) <= spec_sort_key(s[0]) {
        assert(r == seq![m] + s);
        if spec_sorted_by_key(s) {
            assert forall|i: int, j: int|
                0 <= i < j < r.len() implies spec_sort_key(r[i]) <= spec_sort_key(r[j]) by {
                if i > 0 {
                    assert(r[i] == s[i - 1] && r[j] == s[j - 1]);
                } else {
                    assert(r[j] == s[j - 1]);
                    assert(spec_sort_key(s[0]) <= spec_sort_key(s[j - 1]));
                }
            }
        }
        if s.no_duplicates() && !s.contains(m) {
            assert forall|i: int, j: int|
                0 <= i < r.len() && 0 <= j < r.len() && i != j implies r[i] != r[j] by {
                if i > 0 && j > 0 {
                    assert(r[i] == s[i - 1] && r[j] == s[j - 1]);
                } else if i == 0 {
                    assert(r[j] == s[j - 1]);
                    if r[0] == s[j - 1] {
                        assert(s.contains(m));
                    }
                } else {
                    assert(r[i] == s[i - 1]);
                    if r[0] == s[i - 1] {
                        assert(s.contains(m));
                    }
                }
            }
            assert(r.no_duplicates());
        }
    } else {
        let t = s.drop_first();
        let inner = spec_insert_sorted(m, t);
        assert(r == seq![s[0]] + inner);
        assert(s =~= seq![s[0]] + t);
        lemma_insert_sorted_props(m, t);
        if spec_sorted_by_key(s) {
            assert forall|i: int, j: int|
                0 <= i < j < t.len() implies spec_sort_key(t[i]) <= spec_sort_key(t[j]) by {
                assert(t[i] == s[i + 1] && t[j] == s[j + 1]);
            }
            assert(spec_sorted_by_key(t));
            assert forall|i: int, j: int|
                0 <= i < j < r.len() implies spec_sort_key(r[i]) <= spec_sort_key(r[j]) by {
                if i > 0 {
                    assert(r[i] == inner[i - 1] && r[j] == inner[j - 1]);
                } else {
                    assert(r[j] == inner[j - 1]);
                    assert(inner.contains(inner[j - 1]));
                    lemma_insert_sorted_contains(m, t, inner[j - 1]);
                    if inner[j - 1] == m {
                        assert(spec_sort_key(s[0]) <= spec_sort_key(m));
                    } else {
                        assert(t.contains(inner[j - 1]));
                        let k = choose|k: int| 0 <= k < t.len() && t[k] == inner[j - 1];
                        assert(t[k] == s[k + 1]);
                        assert(spec_sort_key(s[0]) <= spec_sort_key(s[k + 1]));
                    }
                }
            }
        }
        if s.no_duplicates() && !s.contains(m) {
            assert forall|i: int, j: int|
                0 <= i < t.len() && 0 <= j < t.len() && i != j implies t[i] != t[j] by {
                assert(t[i] == s[i + 1] && t[j] == s[j + 1]);
            }
            assert(t.no_duplicates());
            if t.contains(m) {
                let k = choose|k: int| 0 <= k < t.len() && t[k] == m;
                assert(s[k + 1] == m);
                assert(s.contains(m));
            }
            assert(inner.no_duplicates());
            lemma_insert_sorted_contains(m, t, s[0]);
            if inner.contains(s[0]) {
                if s[0] == m {
                    assert(s.contains(m));
                } else {
                    assert(t.contains(s[0]));
                    let k = choose|k: int| 0 <= k < t.len() && t[k] == s[0];
                    assert(s[k + 1] == s[0]);
                }
            }
            assert forall|i: int, j: int|
                0 <= i < r.len() && 0 <= j < r.len() && i != j implies r[i] != r[j] by {
                if i > 0 && j > 0 {
                    assert(r[i] == inner[i - 1] && r[j] == inner[j - 1]);
                } else if i == 0 {
                    assert(r[j] == inner[j - 1]);
                    if r[0] == inner[j - 1] {
                        assert(inner.contains(s[0]));
                    }
                } else {
                    assert(r[i] == inner[i - 1]);
                    if r[0] == inner[i - 1] {
                        assert(inner.contains(s[0]));
                    }
                }
            }
            assert(r.no_duplicates());
        }
    }
}

/// Sorting keeps the length, orders by key, and keeps the sequence
/// free of duplicates.
proof fn lemma_sort_defs_props(s: Seq<MessageDefView>)
    ensures
        spec_sort_defs(s).len() == s.len(),
        spec_sorted_by_key(spec_sort_defs(s)),
        s.no_duplicates() ==> spec_sort_defs(s).no_duplicates(),
    decreases s.len(),
{
    if s.len() == 0 {
    } else {
        let t = s.drop_first();
        lemma_sort_defs_props(t);
        lemma_insert_sorted_props(s[0], spec_sort_defs(t));
        if s.no_duplicates() {
            assert forall|i: int, j: int|
                0 <= i < t.len() && 0 <= j < t.len() && i != j implies t[i] != t[j] by {
                assert(t[i] == s[i + 1] && t[j] == s[j + 1]);
            }
            assert(t.no_duplicates());
            lemma_sort_defs_contains(t, s[0]);
            if spec_sort_defs(t).contains(s[0]) {
                assert(t.contains(s[0]));
                let k = choose|k: int| 0 <= k < t.len() && t[k] == s[0];
                assert(s[k + 1] == s[0]);
            }
            assert(spec_sort_defs(s).no_duplicates());
        }
    }
}

/// Two sorted, duplicate-free sequences whose elements are determined
/// by their ids and which hold the same elements are equal.
proof fn lemma_sorted_unique(s1: Seq<MessageDefView>, s2: Seq<MessageDefView>)
    requires
        spec_sorted_by_key(s1),
        spec_sorted_by_key(s2),
        s1.no_duplicates(),
        s2.no_duplicates(),
        forall|x: MessageDefView, y: MessageDefView|
            #[trigger] s1.contains(x) && #[trigger] s1.contains(y) && x.id == y.id ==> x == y,
        forall|x: MessageDefView| #[trigger] s1.contains(x) <==> #[trigger] s2.contains(x),
    ensures
        s1 =~= s2,
    decreases s1.len(),
{
    if s1.len() == 0 {
        if s2.len() > 0 {
            assert(s2.contains(s2[0]));
            assert(s1.contains(s2[0]));
            let i = choose|i: int| 0 <= i < s1.len() && s1[i] == s2[0];
            assert(false);
        }
    } else {
        assert(s1.contains(s1[0]));
        assert(s2.contains(s1[0]));
        let j = choose|j: int| 0 <= j < s2.len() && s2[j] == s1[0];
        assert(s2.contains(s2[0]));
        assert(s1.contains(s2[0]));
        let i = choose|i: int| 0 <= i < s1.len() && s1[i] == s2[0];
        assert(spec_sort_key(s2[0]) <= spec_sort_key(s2[j]));
        assert(spec_sort_key(s1[0]) <= spec_sort_key(s1[i]));
        assert(spec_sort_key(s1[i]) == spec_sort_key(s1[0]));
        lemma_key_id(s1[i], s1[0]);
        assert(s1[i] == s1[0]);
        assert(s2[0] == s1[0]);
        let t1 = s1.drop_first();
        let t2 = s2.drop_first();
        assert forall|a: int, b: int|
            0 <= a < b < t1.len() implies spec_sort_key(t1[a]) <= spec_sort_key(t1[b]) by {
            assert(t1[a] == s1[a + 1] && t1[b] == s1[b + 1]);
        }
        assert forall|a: int, b: int|
            0 <= a < b < t2.len() implies spec_sort_key(t2[a]) <= spec_sort_key(t2[b]) by {
            assert(t2[a] == s2[a + 1] && t2[b] == s2[b + 1]);
        }
        assert forall|a: int, b: int|
            0 <= a < t1.len() && 0 <= b < t1.len() && a != b implies t1[a] != t1[b] by {
            assert(t1[a] == s1[a + 1] && t1[b] == s1[b + 1]);
        }
        assert(t1.no_duplicates());
        assert forall|a: int, b: int|
            0 <= a < t2.len() && 0 <= b < t2.len() && a != b implies t2[a] != t2[b] by {
            assert(t2[a] == s2[a + 1] && t2[b] == s2[b + 1]);
        }
        assert(t2.no_duplicates());
        assert forall|x: MessageDefView, y: MessageDefView|
            #[trigger] t1.contains(x) && #[trigger] t1.contains(y) && x.id == y.id implies x
            == y by {
            let a = choose|a: int| 0 <= a < t1.len() && t1[a] == x;
            let b = choose|b: int| 0 <= b < t1.len() && t1[b] == y;
            assert(s1[a + 1] == x && s1[b + 1] == y);
            assert(s1.contains(x) && s1.contains(y));
        }
        assert forall|x: MessageDefView| #[trigger] t1.contains(x) implies t2.contains(x) by {
            let a = choose|a: int| 0 <= a < t1.len() && t1[a] == x;
            assert(s1[a + 1] == x);
            assert(s1.contains(x));
            assert(s2.contains(x));
            let b = choose|b: int| 0 <= b < s2.len() && s2[b] == x;
            if b == 0 {
                assert(s1[a + 1] == s1[0]);
                assert(false);
            }
            assert(t2[b - 1] == x);
        }
        assert forall|x: MessageDefView| #[trigger] t2.contains(x) implies t1.contains(x) by {
            let a = choose|a: int| 0 <= a < t2.len() && t2[a] == x;
            assert(s2[a + 1] == x);
            assert(s2.contains(x));
            assert(s1.contains(x));
            let b = choose|b: int| 0 <= b < s1.len() && s1[b] == x;
            if b == 0 {
                assert(s2[a + 1] == s2[0]);
                assert(false);
            }
            assert(t1[b - 1] == x);
        }
        lemma_sorted_unique(t1, t2);
        assert forall|k: int| 0 <= k < s1.len() implies s1[k] == s2[k] by {
            if k > 0 {
                assert(s1[k] == t1[k - 1] && s2[k] == t2[k - 1]);
            }
        }
        assert(s1 =~= s2);
    }
}

/// Column assignment is deterministic: however the decoder's id-keyed
/// definition map is enumerated, the built header rows and column
/// index are the same.
pub proof fn lemma_header_deterministic(
    m: Map<u32, MessageDefView>,
    defs1: Seq<MessageDefView>,
    defs2: Seq<MessageDefView>,
)
    requires
        spec_catalog_matches(m, defs1),
        spec_catalog_matches(m, defs2),
    ensures
        spec_build_header(defs1) == spec_build_header(defs2),
{
    assert forall|i: int, j: int|
        0 <= i < defs1.len() && 0 <= j < defs1.len() && i != j implies defs1[i] != defs1[j] by {
        assert(defs1[i].id != defs1[j].id);
    }
    assert(defs1.no_duplicates());
    assert forall|i: int, j: int|
        0 <= i < defs2.len() && 0 <= j < defs2.len() && i != j implies defs2[i] != defs2[j] by {
        assert(defs2[i].id != defs2[j].id);
    }
    assert(defs2.no_duplicates());
    lemma_sort_defs_props(defs1);
    lemma_sort_defs_props(defs2);
    let r1 = spec_sort_defs(defs1);
    let r2 = spec_sort_defs(defs2);
    assert forall|x: MessageDefView, y: MessageDefView|
        #[trigger] r1.contains(x) && #[trigger] r1.contains(y) && x.id == y.id implies x == y by {
        lemma_sort_defs_contains(defs1, x);
        lemma_sort_defs_contains(defs1, y);
        let a = choose|a: int| 0 <= a < defs1.len() && defs1[a] == x;
        let b = choose|b: int| 0 <= b < defs1.len() && defs1[b] == y;
        assert(x == m[x.id] && y == m[y.id]);
    }
    assert forall|x: MessageDefView| #[trigger] r1.contains(x) implies r2.contains(x) by {
        lemma_sort_defs_contains(defs1, x);
        let a = choose|a: int| 0 <= a < defs1.len() && defs1[a] == x;
        assert(m.contains_key(x.id) && x == m[x.id]);
        let b = choose|b: int| 0 <= b < defs2.len() && defs2[b].id == x.id;
        assert(defs2[b] == m[defs2[b].id]);
        assert(defs2[b] == x);
        assert(defs2.contains(x));
        lemma_sort_defs_contains(defs2, x);
    }
    assert forall|x: MessageDefView| #[trigger] r2.contains(x) implies r1.contains(x) by {
        lemma_sort_defs_contains(defs2, x);
        let a = choose|a: int| 0 <= a < defs2.len() && defs2[a] == x;
        assert(m.contains_key(x.id) && x == m[x.id]);
        let b = choose|b: int| 0 <= b < defs1.len() && defs1[b].id == x.id;
        assert(defs1[b] == m[defs1[b].id]);
        assert(defs1[b] == x);
        assert(defs1.contains(x));
        lemma_sort_defs_contains(defs1, x);
    }
    lemma_sorted_unique(r1, r2);
    assert(r1 == r2);
}

/// Finds the first position whose key is at least the given one.
fn find_insert_pos(v: &Vec<MessageDef>, key: u64) -> (j: usize)
    ensures
        j <= v@.len(),
        forall|k: int| 0 <= k < j ==> spec_sort_key(#[trigger] v.deep_view()[k]) < key,
        j < v@.len() ==> key <= spec_sort_key(v.deep_view()[j as int]),
{
    let mut j: usize = 0;
    while j < v.len()
        invariant
            j <= v@.len(),
            forall|k: int| 0 <= k < j ==> spec_sort_key(#[trigger] v.deep_view()[k]) < key,
        decreases v@.len() - j,
    {
        if sort_key(&v[j]) >= key {
            return j;
        }
        j += 1;
    }
    j
}

/// Inserts one definition into a sorted vector at its key's position.
fn insert_sorted(v: &mut Vec<MessageDef>, m: MessageDef)
    ensures
        final(v).deep_view() == spec_insert_sorted(m@, old(v).deep_view()),
{
    let key = sort_key(&m);
    let j = find_insert_pos(v, key);
    proof {
        lemma_insert_sorted_at(m@, v.deep_view(), j as int);
    }
    v.insert(j, m);
    proof {
        assert(v.deep_view() =~= old(v).deep_view().take(j as int) + seq![m@] + old(
            v,
        ).deep_view().skip(j as int));
    }
}

/// Sorts the catalog ascending by key.
fn sort_defs(defs: Vec<MessageDef>) -> (r: Vec<MessageDef>)
    ensures
        r.deep_view() == spec_sort_defs(defs.deep_view()),
{
    let ghost orig = defs.deep_view();
    let mut rest = defs;
    let mut out: Vec<MessageDef> = Vec::new();
    while rest.len() > 0
        invariant
            rest@.len() <= orig.len(),
            rest.deep_view() =~= orig.take(rest@.len() as int),
            out.deep_view() == spec_sort_defs(orig.skip(rest@.len() as int)),
        decreases rest@.len(),
    {
        let ghost n = rest@.len() as int;
        let ghost prevv = rest@;
        let ghost prevd = rest.deep_view();
        let m = match rest.pop() {
            Some(m) => m,
            None => {
                proof {
                    assert(false);
                }
                unreached()
            },
        };
        proof {
            assert(rest@.len() == n - 1);
            assert forall|k: int| 0 <= k < n - 1 implies rest.deep_view()[k] == orig[k] by {
                assert(rest@[k] == prevv[k]);
                assert(rest.deep_view()[k] == rest@[k].deep_view());
                assert(prevd[k] == prevv[k].deep_view());
                assert(prevd[k] == orig.take(n)[k]);
            }
            assert(rest.deep_view() =~= orig.take(n - 1));
            assert(m == prevv[n - 1]);
            assert(m@ == prevd[n - 1]);
            assert(m@ == orig.take(n)[n - 1]);
            assert(m@ == orig[n - 1]);
        }
        insert_sorted(&mut out, m);
        proof {
            let tail = orig.skip(n - 1);
            assert(tail[0] == orig[n - 1]);
            assert(tail.drop_first() =~= orig.skip(n));
            assert(out.deep_view() == spec_sort_defs(orig.skip(n - 1)));
        }
    }
    proof {
        assert(orig.skip(0) =~= orig);
    }
    out
}

// ---------------------------------------------------------------------
// The table header
// ---------------------------------------------------------------------
/// The four header rows of one output table and its column key list:
/// column `c` of a data row (for `c >= 1`) belongs to the (message,
/// signal) pair at `columns[c - 1]`; column 0 is the bin start time.
pub struct TableHeader {
    pub bus_row: Vec<String>,
    pub node_row: Vec<String>,
    pub message_row: Vec<String>,
    pub signal_row: Vec<String>,
    pub columns: Vec<(String, String)>,
}

/// The mathematical content of a `TableHeader`.
#[verifier::ext_equal]
pub struct TableHeaderView {
    pub bus_row: Seq<Seq<char>>,
    pub node_row: Seq<Seq<char>>,
    pub message_row: Seq<Seq<char>>,
    pub signal_row: Seq<Seq<char>>,
    pub columns: Seq<(Seq<char>, Seq<char>)>,
}

impl View for TableHeader {
    type V = TableHeaderView;

    open spec fn view(&self) -> TableHeaderView {
        TableHeaderView {
            bus_row: self.bus_row.deep_view(),
            node_row: self.node_row.deep_view(),
            message_row: self.message_row.deep_view(),
            signal_row: self.signal_row.deep_view(),
            columns: self.columns.deep_view(),
        }
    }
}

/// The transmitting node's column text: the node's name, or a fixed
/// placeholder for a message without a sender.
pub open spec fn spec_node_text(node: Option<Seq<char>>) -> Seq<char> {
    match node {
        Some(n) => n,
        None => "N/A"@,
    }
}

/// One signal offered to the header: the first occurrence of a
/// (message, signal) pair claims the next column; a repeated pair
/// changes nothing.
pub open spec fn spec_add_signal(
    h: TableHeaderView,
    node: Seq<char>,
    msg: Seq<char>,
    sig: Seq<char>,
) -> TableHeaderView {
    if h.columns.contains((msg, sig)) {
        h
    } else {
        TableHeaderView {
            bus_row: h.bus_row.push("Main"@),
            node_row: h.node_row.push(node),
            message_row: h.message_row.push(msg),
            signal_row: h.signal_row.push(sig),
            columns: h.columns.push((msg, sig)),
        }
    }
}

/// The first `n` signals of one message offered to the header in
/// declared order.
pub open spec fn spec_add_msg(h: TableHeaderView, m: MessageDefView, n: int) -> TableHeaderView
    decreases n,
{
    if n <= 0 {
        h
    } else {
        spec_add_signal(
            spec_add_msg(h, m, n - 1),
            spec_node_text(m.node),
            m.name,
            m.signals[n - 1],
        )
    }
}

/// The first `n` definitions offered to the header in order.
pub open spec fn spec_add_defs(h: TableHeaderView, defs: Seq<MessageDefView>, n: int) -> TableHeaderView
    decreases n,
{
    if n <= 0 {
        h
    } else {
        spec_add_msg(spec_add_defs(h, defs, n - 1), defs[n - 1], defs[n - 1].signals.len() as int)
    }
}

/// The header before any column is claimed: the four row titles and
/// the reserved time column.
pub open spec fn spec_header_init() -> TableHeaderView {
    TableHeaderView {
        bus_row: seq!["Bus"@],
        node_row: seq!["Node"@],
        message_row: seq!["Message"@],
        signal_row: seq!["Signal"@],
        columns: Seq::empty(),
    }
}

/// The header built from a catalog: definitions sorted ascending by
/// key, signals in declared order, first occurrence of a (message,
/// signal) pair claiming the next column.
pub open spec fn spec_build_header(defs: Seq<MessageDefView>) -> TableHeaderView {
    let sorted = spec_sort_defs(defs);
    spec_add_defs(spec_header_init(), sorted, sorted.len() as int)
}

impl TableHeaderView {
    /// The four header rows line up with the column keys (plus the
    /// reserved time column), and no (message, signal) pair claims two
    /// columns.
    pub open spec fn wf(self) -> bool {
        &&& self.bus_row.len() == self.columns.len() + 1
        &&& self.node_row.len() == self.columns.len() + 1
        &&& self.message_row.len() == self.columns.len() + 1
        &&& self.signal_row.len() == self.columns.len() + 1
        &&& forall|i: int, j: int|
            0 <= i < self.columns.len() && 0 <= j < self.columns.len() && i != j
                ==> self.columns[i] != self.columns[j]
    }
}

/// Offering one signal keeps the header well formed.
proof fn lemma_add_signal_wf(h: TableHeaderView, node: Seq<char>, msg: Seq<char>, sig: Seq<char>)
    requires
        h.wf(),
    ensures
        spec_add_signal(h, node, msg, sig).wf(),
{
    let r = spec_add_signal(h, node, msg, sig);
    if !h.columns.contains((msg, sig)) {
        assert forall|i: int, j: int|
            0 <= i < r.columns.len() && 0 <= j < r.columns.len() && i != j implies r.columns[i]
            != r.columns[j] by {
            if j == r.columns.len() - 1 {
                if r.columns[i] == (msg, sig) {
                    assert(h.columns[i] == (msg, sig));
                    assert(h.columns.contains((msg, sig)));
                }
            } else if i == r.columns.len() - 1 {
                if r.columns[j] == (msg, sig) {
                    assert(h.columns[j] == (msg, sig));
                    assert(h.columns.contains((msg, sig)));
                }
            }
        }
    }
}

/// Offering one message's signals keeps the header well formed.
proof fn lemma_add_msg_wf(h: TableHeaderView, m: MessageDefView, n: int)
    requires
        h.wf(),
    ensures
        spec_add_msg(h, m, n).wf(),
    decreases n,
{
    if n > 0 {
        lemma_add_msg_wf(h, m, n - 1);
        lemma_add_signal_wf(
            spec_add_msg(h, m, n - 1),
            spec_node_text(m.node),
            m.name,
            m.signals[n - 1],
        );
    }
}

/// Offering a catalog keeps the header well formed.
proof fn lemma_add_defs_wf(h: TableHeaderView, defs: Seq<MessageDefView>, n: int)
    requires
        h.wf(),
    ensures
        spec_add_defs(h, defs, n).wf(),
    decreases n,
{
    if n > 0 {
        lemma_add_defs_wf(h, defs, n - 1);
        lemma_add_msg_wf(
            spec_add_defs(h, defs, n - 1),
            defs[n - 1],
            defs[n - 1].signals.len() as int,
        );
    }
}

/// A header built from any catalog is well formed: its four rows line
/// up with its column keys and no pair claims two columns.
pub proof fn lemma_build_header_wf(defs: Seq<MessageDefView>)
    ensures
        spec_build_header(defs).wf(),
{
    let sorted = spec_sort_defs(defs);
    lemma_add_defs_wf(spec_header_init(), sorted, sorted.len() as int);
}

impl TableHeader {
    /// Scans the column keys for an exact (message, signal) match.
    fn contains_column(&self, msg: &String, sig: &String) -> (r: bool)
        ensures
            r == self@.columns.contains((msg@, sig@)),
    {
        let n = self.columns.len();
        let mut j: usize = 0;
        while j < n
            invariant
                n == self.columns@.len(),
                j <= n,
                forall|k: int| 0 <= k < j ==> self@.columns[k] != (msg@, sig@),
        decreases n - j,
        {
            if self.columns[j].0.eq(msg) && self.columns[j].1.eq(sig) {
                proof {
                    assert(self@.columns[j as int] == (msg@, sig@));
                }
                return true;
            }
            j += 1;
        }
        proof {
            if self@.columns.contains((msg@, sig@)) {
                let k = choose|k: int|
                    0 <= k < self@.columns.len() && self@.columns[k] == (msg@, sig@);
                assert(false);
            }
        }
        false
    }

    /// Finds the data-row cell claimed by a (message, signal) pair:
    /// one past the pair's position in the column key list, column 0
    /// being the bin start time.
    pub fn find_column(&self, msg: &String, sig: &String) -> (r: Option<usize>)
        ensures
            match r {
                Some(c) => spec_cell_index(self@, msg@, sig@) == Some(c as int) && 1 <= c && c
                    <= self@.columns.len(),
                None => spec_cell_index(self@, msg@, sig@) is None,
            },
    {
        let n = self.columns.len();
        let mut j: usize = 0;
        while j < n
            invariant
                n == self.columns@.len(),
                j <= n,
                spec_find_col(self@.columns, (msg@, sig@), 0) == spec_find_col(
                    self@.columns,
                    (msg@, sig@),
                    j as int,
                ),
            decreases n - j,
        {
            if self.columns[j].0.eq(msg) && self.columns[j].1.eq(sig) {
                proof {
                    assert(self@.columns[j as int] == (msg@, sig@));
                }
                return Some(j + 1);
            }
            j += 1;
            proof {
                assert(self@.columns[j - 1] != (msg@, sig@));
            }
        }
        None
    }

    /// Builds the header from an already fetched catalog.
    pub fn build(defs: Vec<MessageDef>) -> (r: TableHeader)
        ensures
            r@ == spec_build_header(defs.deep_view()),
            r@.wf(),
    {
        proof {
            lemma_build_header_wf(defs.deep_view());
        }
        let sorted = sort_defs(defs);
        let mut h = TableHeader {
            bus_row: vec!["Bus".to_owned()],
            node_row: vec!["Node".to_owned()],
            message_row: vec!["Message".to_owned()],
            signal_row: vec!["Signal".to_owned()],
            columns: Vec::new(),
        };
        proof {
            assert(h@ =~~= spec_header_init());
        }
        let n = sorted.len();
        let mut i: usize = 0;
        while i < n
            invariant
                n == sorted@.len(),
                i <= n,
                h@ == spec_add_defs(spec_header_init(), sorted.deep_view(), i as int),
            decreases n - i,
        {
            let node_text: String = match &sorted[i].node {
                Some(nm) => nm.clone(),
                None => "N/A".to_owned(),
            };
            proof {
                assert(node_text@ == spec_node_text(sorted.deep_view()[i as int].node));
            }
            let sig_count = sorted[i].signals.len();
            let mut k: usize = 0;
            while k < sig_count
                invariant
                    n == sorted@.len(),
                    i < n,
                    sig_count == sorted@[i as int].signals@.len(),
                    k <= sig_count,
                    node_text@ == spec_node_text(sorted.deep_view()[i as int].node),
                    h@ == spec_add_msg(
                        spec_add_defs(spec_header_init(), sorted.deep_view(), i as int),
                        sorted.deep_view()[i as int],
                        k as int,
                    ),
                decreases sig_count - k,
            {
                let ghost target = spec_add_signal(
                    h@,
                    spec_node_text(sorted.deep_view()[i as int].node),
                    sorted.deep_view()[i as int].name,
                    sorted.deep_view()[i as int].signals[k as int],
                );
                if !h.contains_column(&sorted[i].name, &sorted[i].signals[k]) {
                    h.bus_row.push("Main".to_owned());
                    h.node_row.push(node_text.clone());
                    h.message_row.push(sorted[i].name.clone());
                    h.signal_row.push(sorted[i].signals[k].clone());
                    h.columns.push((sorted[i].name.clone(), sorted[i].signals[k].clone()));
                }
                proof {
                    assert(h@ =~~= target);
                }
                k += 1;
            }
            i += 1;
            proof {
                assert(h@ == spec_add_defs(spec_header_init(), sorted.deep_view(), i as int));
            }
        }
        h
    }

    /// Builds the header from a decoder's full catalog.
    pub fn create(parser: &can_decode::Parser) -> (r: TableHeader)
        ensures
            exists|defs: Seq<MessageDefView>|
                #[trigger] spec_catalog_matches(parser_defs(*parser), defs) && r@
                    == spec_build_header(defs),
            r@.wf(),
    {
        let defs = catalog(parser);
        proof {
            assert forall|i: int| 0 <= i < defs@.len() implies defs.deep_view()[i] == #[trigger] defs@[i]@ by {
            }
            lemma_catalog_matches(parser_defs(*parser), defs@, defs.deep_view());
        }
        TableHeader::build(defs)
    }
}

/// The deep view of a catalog the decoder handed out enumerates the
/// decoder's id-keyed definition map.
proof fn lemma_catalog_matches(
    m: Map<u32, MessageDefView>,
    defs: Seq<MessageDef>,
    dv: Seq<MessageDefView>,
)
    requires
        dv.len() == defs.len(),
        forall|i: int| 0 <= i < defs.len() ==> dv[i] == #[trigger] defs[i]@,
        forall|i: int|
            0 <= i < defs.len() ==> m.contains_key(#[trigger] defs[i].id) && defs[i]@
                == m[defs[i].id],
        forall|i: int, j: int|
            0 <= i < defs.len() && 0 <= j < defs.len() && i != j ==> defs[i].id != defs[j].id,
        forall|id: u32| #[trigger]
            m.contains_key(id) ==> exists|i: int| 0 <= i < defs.len() && defs[i].id == id,
    ensures
        spec_catalog_matches(m, dv),
{
    assert forall|i: int| 0 <= i < dv.len() implies m.contains_key(#[trigger] dv[i].id) && dv[i]
        == m[dv[i].id] by {
        assert(dv[i] == defs[i]@);
        assert(defs[i]@.id == defs[i].id);
    }
    assert forall|i: int, j: int|
        0 <= i < dv.len() && 0 <= j < dv.len() && i != j implies dv[i].id != dv[j].id by {
        assert(dv[i] == defs[i]@ && dv[j] == defs[j]@);
        assert(defs[i]@.id == defs[i].id && defs[j]@.id == defs[j].id);
    }
    assert forall|id: u32| #[trigger] m.contains_key(id) implies exists|i: int|
        0 <= i < dv.len() && dv[i].id == id by {
        let i = choose|i: int| 0 <= i < defs.len() && defs[i].id == id;
        assert(dv[i] == defs[i]@);
        assert(dv[i].id == id);
    }
}

/// A sequence of definitions enumerates a decoder's id-keyed map: each
/// entry is the definition its id maps to, ids are distinct, and every
/// key of the map occurs.
pub open spec fn spec_catalog_matches(m: Map<u32, MessageDefView>, defs: Seq<MessageDefView>) -> bool {
    &&& forall|i: int|
        0 <= i < defs.len() ==> m.contains_key(#[trigger] defs[i].id) && defs[i] == m[defs[i].id]
    &&& forall|i: int, j: int| 0 <= i < defs.len() && 0 <= j < defs.len() && i != j ==> defs[i].id != defs[j].id
    &&& forall|id: u32| #[trigger] m.contains_key(id) ==> exists|i: int| 0 <= i < defs.len() && defs[i].id == id
}

/// The position of a (message, signal) key in the column list, scanned
/// from `j` on.
pub open spec fn spec_find_col(
    cols: Seq<(Seq<char>, Seq<char>)>,
    key: (Seq<char>, Seq<char>),
    j: int,
) -> Option<int>
    decreases cols.len() - j,
    when j <= cols.len()
{
    if j < 0 || j >= cols.len() {
        None
    } else if cols[j] == key {
        Some(j)
    } else {
        spec_find_col(cols, key, j + 1)
    }
}

/// The data-row cell a (message, signal) pair writes to, if the header
/// declares it: one past its column key position.
pub open spec fn spec_cell_index(h: TableHeaderView, msg: Seq<char>, sig: Seq<char>) -> Option<
    int,
> {
    match spec_find_col(h.columns, (msg, sig), 0) {
        Some(j) => Some(j + 1),
        None => None,
    }
}

// ---------------------------------------------------------------------
// The row builder
// ---------------------------------------------------------------------
/// One pending data row: cell 0 always holds the bin start time in
/// seconds; the other cells start unset and fill as signals arrive.
pub struct RowBuilder {
    pub cells: Vec<Option<String>>,
    pub bin_start_ms: u64,
}

/// The mathematical content of a `RowBuilder`.
#[verifier::ext_equal]
pub struct RowBuilderView {
    pub cells: Seq<Option<Seq<char>>>,
    pub bin_start_ms: u64,
}

impl View for RowBuilder {
    type V = RowBuilderView;

    open spec fn view(&self) -> RowBuilderView {
        RowBuilderView { cells: self.cells.deep_view(), bin_start_ms: self.bin_start_ms }
    }
}

/// A timestamp aligned down to the nearest bin boundary.
pub open spec fn spec_bin_align(t: u64) -> u64 {
    ((t / (BIN_WIDTH_MS as u64)) * (BIN_WIDTH_MS as u64)) as u64
}

/// Aligns a timestamp down to the nearest bin boundary.
pub fn bin_align(t: u64) -> (r: u64)
    ensures
        r == spec_bin_align(t),
        r <= t,
        r % (BIN_WIDTH_MS as u64) == 0,
        t - r < BIN_WIDTH_MS as u64,
{
    let w = BIN_WIDTH_MS as u64;
    let r = (t / w) * w;
    proof {
        assert(r == spec_bin_align(t) && r <= t && r % (BIN_WIDTH_MS as u64) == 0 && t - r
            < BIN_WIDTH_MS as u64) by (nonlinear_arith)
            requires
                w == BIN_WIDTH_MS as u64,
                w == 15,
                r == (t / w) * w,
        ;
    }
    r
}

/// The cells of a row cleared for a new bin: the time cell set to the
/// bin's start, every other cell unset.
pub open spec fn spec_clear_cells(cells: Seq<Option<Seq<char>>>, bin: u64) -> Seq<
    Option<Seq<char>>,
> {
    Seq::new(
        cells.len(),
        |i: int|
            if i == 0 {
                Some(spec_seconds_5dp(bin as nat))
            } else {
                None
            },
    )
}

/// The row's cells with unset cells rendered empty.
pub open spec fn spec_row_cells(cells: Seq<Option<Seq<char>>>) -> Seq<Seq<char>> {
    Seq::new(
        cells.len(),
        |i: int|
            match cells[i] {
                Some(s) => s,
                None => Seq::empty(),
            },
    )
}

impl RowBuilder {
    /// A fresh row with one cell per signal column plus the time
    /// cell, aligned to the bin holding the given timestamp.
    pub fn new(n_signal_cols: usize, t_ms: u64) -> (r: RowBuilder)
        ensures
            r@.cells.len() == n_signal_cols + 1,
            r@.bin_start_ms == spec_bin_align(t_ms),
            r@.cells =~= spec_clear_cells(r@.cells, spec_bin_align(t_ms)),
    {
        let mut cells: Vec<Option<String>> = Vec::new();
        let bin = bin_align(t_ms);
        cells.push(Some(seconds_5dp(bin)));
        let mut i: usize = 0;
        while i < n_signal_cols
            invariant
                i <= n_signal_cols,
                cells@.len() == i + 1,
                cells.deep_view()[0] == Some(spec_seconds_5dp(bin as nat)),
                forall|k: int| 1 <= k < i + 1 ==> cells.deep_view()[k] is None,
            decreases n_signal_cols - i,
        {
            let ghost prevv = cells@;
            let ghost prevd = cells.deep_view();
            cells.push(None);
            i += 1;
            proof {
                assert(cells@[0] == prevv[0]);
                assert(cells.deep_view()[0] == cells@[0].deep_view());
                assert(prevd[0] == prevv[0].deep_view());
                assert forall|k: int| 1 <= k < i + 1 implies cells.deep_view()[k] is None by {
                    assert(cells.deep_view()[k] == cells@[k].deep_view());
                    if k < i {
                        assert(cells@[k] == prevv[k]);
                        assert(prevd[k] == prevv[k].deep_view());
                    }
                }
            }
        }
        let r = RowBuilder { cells, bin_start_ms: bin };
        proof {
            assert(r@.cells =~= spec_clear_cells(r@.cells, spec_bin_align(t_ms)));
        }
        r
    }

    /// Clears the row for the bin starting at the given time: the time
    /// cell is set, every other cell unset.
    pub fn clear_to(&mut self, bin: u64)
        requires
            old(self)@.cells.len() >= 1,
        ensures
            final(self)@.bin_start_ms == bin,
            final(self)@.cells =~= spec_clear_cells(old(self)@.cells, bin),
            final(self)@.cells.len() == old(self)@.cells.len(),
    {
        let n = self.cells.len();
        self.cells.set(0, Some(seconds_5dp(bin)));
        proof {
            assert(self.cells.deep_view()[0] == self.cells@[0].deep_view());
        }
        let mut i: usize = 1;
        while i < n
            invariant
                1 <= i <= n,
                n == self.cells@.len(),
                self.cells.deep_view()[0] == Some(spec_seconds_5dp(bin as nat)),
                forall|k: int| 1 <= k < i ==> self.cells.deep_view()[k] is None,
            decreases n - i,
        {
            let ghost prevv = self.cells@;
            let ghost prevd = self.cells.deep_view();
            self.cells.set(i, None);
            i += 1;
            proof {
                assert(self.cells@[0] == prevv[0]);
                assert(self.cells.deep_view()[0] == self.cells@[0].deep_view());
                assert(prevd[0] == prevv[0].deep_view());
                assert forall|k: int| 1 <= k < i implies self.cells.deep_view()[k] is None by {
                    assert(self.cells.deep_view()[k] == self.cells@[k].deep_view());
                    if k < i - 1 {
                        assert(self.cells@[k] == prevv[k]);
                        assert(prevd[k] == prevv[k].deep_view());
                    }
                }
            }
        }
        self.bin_start_ms = bin;
        proof {
            assert(self@.cells =~= spec_clear_cells(old(self)@.cells, bin));
        }
    }

    /// Sets one signal cell of the row.
    pub fn set_cell(&mut self, c: usize, text: String)
        requires
            1 <= c < old(self)@.cells.len(),
        ensures
            final(self)@.cells =~= old(self)@.cells.update(c as int, Some(text@)),
            final(self)@.bin_start_ms == old(self)@.bin_start_ms,
    {
        self.cells.set(c, Some(text));
        proof {
            assert(self@.cells =~= old(self)@.cells.update(c as int, Some(text@)));
        }
    }

    /// Renders the pending row as one CSV line, unset cells empty.
    pub fn render_line(&self) -> (r: String)
        ensures
            r@ == spec_join_row(spec_row_cells(self@.cells)),
    {
        let n = self.cells.len();
        let mut cells: Vec<String> = Vec::new();
        let mut i: usize = 0;
        while i < n
            invariant
                n == self.cells@.len(),
                i <= n,
                cells@.len() == i,
                cells_view(cells@) =~= spec_row_cells(self@.cells).take(i as int),
            decreases n - i,
        {
            let ghost prevv = cells@;
            match &self.cells[i] {
                Some(s) => cells.push(s.clone()),
                None => cells.push(String::new()),
            }
            i += 1;
            proof {
                assert(self@.cells[i - 1] == self.cells@[i - 1].deep_view());
                assert forall|k: int| 0 <= k < i implies cells_view(cells@)[k] == spec_row_cells(
                    self@.cells,
                ).take(i as int)[k] by {
                    assert(cells_view(cells@)[k] == cells@[k]@);
                    if k < i - 1 {
                        assert(cells@[k] == prevv[k]);
                        assert(cells_view(prevv)[k] == prevv[k]@);
                        assert(cells_view(prevv)[k] == spec_row_cells(self@.cells).take(
                            (i - 1) as int,
                        )[k]);
                    }
                }
                assert(cells_view(cells@) =~= spec_row_cells(self@.cells).take(i as int));
            }
        }
        let r = join_csv_row(cells.as_slice());
        proof {
            assert(cells_view(cells@) =~= spec_row_cells(self@.cells));
        }
        r
    }
}

// ---------------------------------------------------------------------
// Timing state and file rotation
// ---------------------------------------------------------------------
/// The last-seen timestamp and whether any message was seen yet; it
/// decides file rotation and nothing else.
#[derive(Clone, Copy, Debug, PartialEq, Eq, Structural)]
pub struct TimingState {
    pub initialized: bool,
    pub last_t_ms: u32,
}

/// A new output file starts at the first message of a run, when the
/// clock goes backward, or when the forward gap reaches the maximum
/// jump.
pub open spec fn spec_needs_rotation(ts: TimingState, t: u32) -> bool {
    ||| !ts.initialized
    ||| t < ts.last_t_ms
    ||| t - ts.last_t_ms >= MAX_JUMP_MS
}

impl TimingState {
    /// A fresh timing state: no message seen yet.
    pub fn new() -> (r: TimingState)
        ensures
            !r.initialized,
    {
        TimingState { initialized: false, last_t_ms: 0 }
    }

    /// Whether the incoming timestamp starts a new output file.
    pub fn needs_rotation(&self, t: u32) -> (r: bool)
        ensures
            r == spec_needs_rotation(*self, t),
    {
        !self.initialized || t < self.last_t_ms || t - self.last_t_ms >= MAX_JUMP_MS
    }

    /// Remembers the incoming timestamp as the last one seen.
    pub fn record(&mut self, t: u32)
        ensures
            final(self).initialized,
            final(self).last_t_ms == t,
    {
        self.initialized = true;
        self.last_t_ms = t;
    }
}

// ---------------------------------------------------------------------
// The table builder
// ---------------------------------------------------------------------
/// One output step the caller must perform: open the next numbered
/// output file, or write one line to the open file.
pub enum OutputEvent {
    NewFile(String),
    Line(String),
}

/// The mathematical content of an `OutputEvent`.
pub enum OutputEventView {
    NewFile(Seq<char>),
    Line(Seq<char>),
}

impl View for OutputEvent {
    type V = OutputEventView;

    open spec fn view(&self) -> OutputEventView {
        match self {
            OutputEvent::NewFile(s) => OutputEventView::NewFile(s@),
            OutputEvent::Line(s) => OutputEventView::Line(s@),
        }
    }
}

impl DeepView for OutputEvent {
    type V = OutputEventView;

    open spec fn deep_view(&self) -> OutputEventView {
        self.view()
    }
}

/// The four header lines of a fresh output file.
pub open spec fn spec_header_lines(h: TableHeaderView) -> Seq<OutputEventView> {
    seq![
        OutputEventView::Line(spec_join_row(h.bus_row)),
        OutputEventView::Line(spec_join_row(h.node_row)),
        OutputEventView::Line(spec_join_row(h.message_row)),
        OutputEventView::Line(spec_join_row(h.signal_row)),
    ]
}

/// The file counter after opening one more file; it saturates at the
/// machine limit instead of wrapping.
pub open spec fn spec_next_count(c: usize) -> usize {
    if c < usize::MAX {
        (c + 1) as usize
    } else {
        c
    }
}

/// The row flushed bin by bin until the timestamp fits the pending
/// bin: each crossed boundary emits the pending row and clears it for
/// the next bin.
pub open spec fn spec_drain(row: RowBuilderView, t: u64) -> (RowBuilderView, Seq<OutputEventView>)
    decreases t - row.bin_start_ms,
    when row.bin_start_ms <= t
{
    if t >= row.bin_start_ms + (BIN_WIDTH_MS as u64) {
        let line = OutputEventView::Line(spec_join_row(spec_row_cells(row.cells)));
        let next_bin = (row.bin_start_ms + (BIN_WIDTH_MS as u64)) as u64;
        let row2 = RowBuilderView { cells: spec_clear_cells(row.cells, next_bin), bin_start_ms: next_bin };
        let rest = spec_drain(row2, t);
        (rest.0, seq![line] + rest.1)
    } else {
        (row, Seq::empty())
    }
}

/// One decoded message's signals written into the row: each signal
/// whose (message, signal) pair the header declares sets its cell to
/// the value text; an undeclared signal is skipped.
pub open spec fn spec_apply_signals(
    h: TableHeaderView,
    cells: Seq<Option<Seq<char>>>,
    msg_name: Seq<char>,
    sigs: Seq<SignalValueView>,
    n: int,
) -> Seq<Option<Seq<char>>>
    decreases n,
{
    if n <= 0 {
        cells
    } else {
        let prev = spec_apply_signals(h, cells, msg_name, sigs, n - 1);
        match spec_cell_index(h, msg_name, sigs[n - 1].name) {
            Some(c) => prev.update(c, Some(sigs[n - 1].value_text)),
            None => prev,
        }
    }
}

/// The time-binned table builder: the fixed header, the pending row,
/// the timing state, and the count of files opened so far.
pub struct TableBuilder {
    pub header: TableHeader,
    pub row: RowBuilder,
    pub timing: TimingState,
    pub file_count: usize,
}

/// The mathematical content of a `TableBuilder`.
#[verifier::ext_equal]
pub struct TableBuilderView {
    pub header: TableHeaderView,
    pub row: RowBuilderView,
    pub timing: TimingState,
    pub file_count: usize,
}

impl View for TableBuilder {
    type V = TableBuilderView;

    open spec fn view(&self) -> TableBuilderView {
        TableBuilderView {
            header: self.header@,
            row: self.row@,
            timing: self.timing,
            file_count: self.file_count,
        }
    }
}

impl TableBuilderView {
    /// The row always has one cell per declared column plus the time
    /// cell, sits on a bin boundary at or before the last seen
    /// timestamp, and its time cell shows its bin start.
    pub open spec fn wf(self) -> bool {
        &&& self.row.cells.len() == self.header.columns.len() + 1
        &&& self.row.bin_start_ms % (BIN_WIDTH_MS as u64) == 0
        &&& self.row.cells[0] == Some(spec_seconds_5dp(self.row.bin_start_ms as nat))
        &&& (self.timing.initialized ==> self.row.bin_start_ms <= self.timing.last_t_ms as u64)
    }
}

/// What one pushed message does to the builder and what output steps
/// it demands: possibly a rotation to a fresh numbered file with its
/// header lines, then the pending row flushed across each crossed bin
/// boundary, then the message's signals written into the pending row,
/// and the timestamp remembered.
pub open spec fn spec_push(b: TableBuilderView, lm: LogMessageView) -> (
    TableBuilderView,
    Seq<OutputEventView>,
) {
    let t = lm.timestamp as u64;
    let rotate = spec_needs_rotation(b.timing, lm.timestamp);
    let count1 = if rotate {
        spec_next_count(b.file_count)
    } else {
        b.file_count
    };
    let row1 = if rotate {
        RowBuilderView {
            cells: spec_clear_cells(b.row.cells, spec_bin_align(t)),
            bin_start_ms: spec_bin_align(t),
        }
    } else {
        b.row
    };
    let ev0 = if rotate {
        seq![OutputEventView::NewFile(spec_file_name(b.file_count as nat))] + spec_header_lines(
            b.header,
        )
    } else {
        Seq::<OutputEventView>::empty()
    };
    let dr = spec_drain(row1, t);
    let row2 = RowBuilderView {
        cells: spec_apply_signals(
            b.header,
            dr.0.cells,
            lm.decoded.name,
            lm.decoded.signals,
            lm.decoded.signals.len() as int,
        ),
        bin_start_ms: dr.0.bin_start_ms,
    };
    (
        TableBuilderView {
            header: b.header,
            row: row2,
            timing: TimingState { initialized: true, last_t_ms: lm.timestamp },
            file_count: count1,
        },
        ev0 + dr.1,
    )
}

/// What finishing the input does: the pending row is written if any
/// message was ever seen, else nothing.
pub open spec fn spec_finish(b: TableBuilderView) -> Seq<OutputEventView> {
    if b.timing.initialized {
        seq![OutputEventView::Line(spec_join_row(spec_row_cells(b.row.cells)))]
    } else {
        Seq::empty()
    }
}

/// Draining only moves the pending bin forward.
proof fn lemma_drain_monotone(row: RowBuilderView, t: u64)
    requires
        row.bin_start_ms <= t,
    ensures
        spec_drain(row, t).0.bin_start_ms >= row.bin_start_ms,
    decreases t - row.bin_start_ms,
{
    if t >= row.bin_start_ms + (BIN_WIDTH_MS as u64) {
        let next_bin = (row.bin_start_ms + (BIN_WIDTH_MS as u64)) as u64;
        let row2 = RowBuilderView {
            cells: spec_clear_cells(row.cells, next_bin),
            bin_start_ms: next_bin,
        };
        lemma_drain_monotone(row2, t);
    }
}

/// Within one output file the emitted rows move forward in time: a
/// message that does not start a new file never moves the pending bin
/// backward.
pub proof fn lemma_push_time_monotone(b: TableBuilderView, lm: LogMessageView)
    requires
        b.wf(),
        !spec_needs_rotation(b.timing, lm.timestamp),
    ensures
        spec_push(b, lm).0.row.bin_start_ms >= b.row.bin_start_ms,
{
    lemma_drain_monotone(b.row, lm.timestamp as u64);
}

impl TableBuilder {
    /// A fresh builder over the given catalog: header built, no file
    /// open, no message seen.
    pub fn new(defs: Vec<MessageDef>) -> (r: TableBuilder)
        ensures
            r@.wf(),
            r@.header == spec_build_header(defs.deep_view()),
            !r@.timing.initialized,
            r@.file_count == 0,
    {
        let header = TableHeader::build(defs);
        let row = RowBuilder::new(header.columns.len(), 0);
        let r = TableBuilder { header, row, timing: TimingState::new(), file_count: 0 };
        proof {
            assert(r@.row.cells.len() == r@.header.columns.len() + 1);
            assert(spec_bin_align(0) == 0) by (nonlinear_arith);
            assert(r@.row.bin_start_ms % (BIN_WIDTH_MS as u64) == 0);
            assert(r@.row.cells[0] == Some(spec_seconds_5dp(r@.row.bin_start_ms as nat)));
        }
        r
    }

    /// A fresh builder over a decoder's full catalog.
    pub fn from_decoder(parser: &can_decode::Parser) -> (r: TableBuilder)
        ensures
            r@.wf(),
            exists|defs: Seq<MessageDefView>|
                #[trigger] spec_catalog_matches(parser_defs(*parser), defs) && r@.header
                    == spec_build_header(defs),
            !r@.timing.initialized,
            r@.file_count == 0,
    {
        let defs = catalog(parser);
        proof {
            assert forall|i: int| 0 <= i < defs@.len() implies defs.deep_view()[i] == #[trigger] defs@[i]@ by {
            }
            lemma_catalog_matches(parser_defs(*parser), defs@, defs.deep_view());
        }
        TableBuilder::new(defs)
    }

    /// Consumes one decoded, timestamped message and returns the
    /// output steps it demands, in order.
    pub fn push(&mut self, msg: &LogMessage) -> (events: Vec<OutputEvent>)
        requires
            old(self)@.wf(),
        ensures
            final(self)@.wf(),
            final(self)@ == spec_push(old(self)@, msg@).0,
            events.deep_view() == spec_push(old(self)@, msg@).1,
    {
        let t = msg.timestamp;
        let t64 = t as u64;
        let ghost rotate = spec_needs_rotation(old(self)@.timing, t);
        let ghost count1: usize = if rotate {
            spec_next_count(old(self)@.file_count)
        } else {
            old(self)@.file_count
        };
        let mut events: Vec<OutputEvent> = Vec::new();
        if self.timing.needs_rotation(t) {
            events.push(OutputEvent::NewFile(output_file_name(self.file_count)));
            events.push(OutputEvent::Line(join_csv_row(self.header.bus_row.as_slice())));
            events.push(OutputEvent::Line(join_csv_row(self.header.node_row.as_slice())));
            events.push(OutputEvent::Line(join_csv_row(self.header.message_row.as_slice())));
            events.push(OutputEvent::Line(join_csv_row(self.header.signal_row.as_slice())));
            proof {
                assert(cells_view(self.header.bus_row@) =~= self@.header.bus_row);
                assert(cells_view(self.header.node_row@) =~= self@.header.node_row);
                assert(cells_view(self.header.message_row@) =~= self@.header.message_row);
                assert(cells_view(self.header.signal_row@) =~= self@.header.signal_row);
                assert(events.deep_view() =~= seq![
                    OutputEventView::NewFile(spec_file_name(old(self)@.file_count as nat)),
                ] + spec_header_lines(old(self)@.header));
            }
            if self.file_count < usize::MAX {
                self.file_count = self.file_count + 1;
            }
            let bin = bin_align(t64);
            self.row.clear_to(bin);
        }
        let ghost row1 = self@.row;
        let ghost ev0 = events.deep_view();
        proof {
            if rotate {
                assert(row1 =~~= RowBuilderView {
                    cells: spec_clear_cells(old(self)@.row.cells, spec_bin_align(t64)),
                    bin_start_ms: spec_bin_align(t64),
                });
                assert(ev0 =~= seq![
                    OutputEventView::NewFile(spec_file_name(old(self)@.file_count as nat)),
                ] + spec_header_lines(old(self)@.header));
            } else {
                assert(ev0 =~= Seq::<OutputEventView>::empty());
            }
            assert(self@.file_count == count1);
            assert(self@.row.bin_start_ms <= t64);
            assert(row1.cells.len() == old(self)@.header.columns.len() + 1);
        }
        while t64 >= self.row.bin_start_ms + (BIN_WIDTH_MS as u64)
            invariant
                t64 <= u32::MAX as u64,
                self@.header == old(self)@.header,
                self@.timing == old(self)@.timing,
                self@.file_count == count1,
                self@.row.cells.len() == row1.cells.len(),
                row1.cells.len() >= 1,
                row1.bin_start_ms <= t64,
                self@.row.bin_start_ms <= t64,
                self@.row.bin_start_ms % (BIN_WIDTH_MS as u64) == 0,
                self@.row.cells[0] == Some(spec_seconds_5dp(self@.row.bin_start_ms as nat)),
                spec_drain(row1, t64).0 == spec_drain(self@.row, t64).0,
                spec_drain(row1, t64).1 =~= events.deep_view().skip(ev0.len() as int)
                    + spec_drain(self@.row, t64).1,
                events.deep_view().take(ev0.len() as int) =~= ev0,
                ev0.len() <= events.deep_view().len(),
            decreases t64 - self@.row.bin_start_ms,
        {
            let ghost before = self@.row;
            let line = self.row.render_line();
            events.push(OutputEvent::Line(line));
            let next_bin = self.row.bin_start_ms + (BIN_WIDTH_MS as u64);
            self.row.clear_to(next_bin);
            proof {
                assert(next_bin % (BIN_WIDTH_MS as u64) == 0) by (nonlinear_arith)
                    requires
                        next_bin == before.bin_start_ms + (BIN_WIDTH_MS as u64),
                        before.bin_start_ms % (BIN_WIDTH_MS as u64) == 0,
                        BIN_WIDTH_MS == 15u32,
                ;
                assert(self@.row.cells =~= spec_clear_cells(before.cells, next_bin));
                assert(spec_drain(before, t64).0 == spec_drain(self@.row, t64).0);
                assert(spec_drain(before, t64).1 =~= seq![
                    OutputEventView::Line(spec_join_row(spec_row_cells(before.cells))),
                ] + spec_drain(self@.row, t64).1);
                assert(spec_drain(row1, t64).1 =~= events.deep_view().skip(ev0.len() as int)
                    + spec_drain(self@.row, t64).1);
                assert(events.deep_view().take(ev0.len() as int) =~= ev0);
            }
        }
        let ghost row2 = spec_drain(row1, t64).0;
        proof {
            assert(spec_drain(self@.row, t64).0 == self@.row);
            assert(spec_drain(self@.row, t64).1 =~= Seq::<OutputEventView>::empty());
            assert(self@.row == row2);
            assert(events.deep_view() =~= ev0 + spec_drain(row1, t64).1);
        }
        let n = msg.decoded.signals.len();
        let mut k: usize = 0;
        while k < n
            invariant
                n == msg.decoded.signals@.len(),
                k <= n,
                self@.header == old(self)@.header,
                self@.timing == old(self)@.timing,
                self@.file_count == count1,
                self@.row.cells.len() == row2.cells.len(),
                self@.row.bin_start_ms == row2.bin_start_ms,
                self@.row.bin_start_ms <= t64,
                self@.row.bin_start_ms % (BIN_WIDTH_MS as u64) == 0,
                self@.row.cells[0] == Some(spec_seconds_5dp(self@.row.bin_start_ms as nat)),
                self@.row.cells =~= spec_apply_signals(
                    self@.header,
                    row2.cells,
                    msg@.decoded.name,
                    msg@.decoded.signals,
                    k as int,
                ),
                self@.row.cells.len() == self@.header.columns.len() + 1,
            decreases n - k,
        {
            match self.header.find_column(&msg.decoded.name, &msg.decoded.signals[k].name) {
                Some(c) => {
                    self.row.set_cell(c, msg.decoded.signals[k].value_text.clone());
                },
                None => {},
            }
            k += 1;
            proof {
                assert(msg@.decoded.signals[k - 1] == msg.decoded.signals@[k - 1].deep_view());
                assert(self@.row.cells =~= spec_apply_signals(
                    self@.header,
                    row2.cells,
                    msg@.decoded.name,
                    msg@.decoded.signals,
                    k as int,
                ));
            }
        }
        self.timing.record(t);
        proof {
            assert(self@ =~~= spec_push(old(self)@, msg@).0);
            assert(events.deep_view() =~= spec_push(old(self)@, msg@).1);
        }
        events
    }

    /// Ends the input: the pending row is emitted if any message was
    /// ever pushed.
    pub fn finish(&self) -> (events: Vec<OutputEvent>)
        requires
            self@.wf(),
        ensures
            events.deep_view() == spec_finish(self@),
    {
        let mut events: Vec<OutputEvent> = Vec::new();
        if self.timing.initialized {
            events.push(OutputEvent::Line(self.row.render_line()));
        }
        proof {
            assert(events.deep_view() =~= spec_finish(self@));
        }
        events
    }
}

} // verus!
