use vstd::prelude::*;

verus! {

broadcast use vstd::std_specs::vec::group_vec_axioms;

/// A JSON document as the enclave's logic sees it.
///
/// Numbers are kept as their decimal text, so that no value changes on its
/// way through the library. Object entries keep the order in which they were
/// given; a valid object has no key twice.
#[derive(Debug)]
pub enum Json {
    Null,
    Bool(bool),
    Number(String),
    Str(String),
    Array(Vec<Json>),
    Object(Vec<Member>),
}

/// One key of an object and its value.
#[derive(Debug)]
pub struct Member {
    pub key: String,
    pub value: Json,
}

/// Why two documents could not be merged.
#[derive(Debug, Clone, Copy, PartialEq, Eq, Structural)]
pub enum MergeError {
    /// An input is not an object, a column is not an array, or a column of
    /// the right-hand document is missing on the left.
    MergeShape,
}

/// One entry of a document's top level: a column of cells, or any other value.
pub enum ColumnView {
    Cells(Seq<Json>),
    Scalar(Json),
}

/// A document's top level, key by key.
pub type TableView = Seq<(Seq<char>, ColumnView)>;

pub open spec fn column_view(v: Json) -> ColumnView {
    match v {
        Json::Array(a) => ColumnView::Cells(a@),
        other => ColumnView::Scalar(other),
    }
}

pub open spec fn table_view(es: Seq<Member>) -> TableView {
    es.map_values(|e: Member| (e.key@, column_view(e.value)))
}

/// No key stands twice in the table.
pub open spec fn keys_unique(t: TableView) -> bool {
    forall|i: int, j: int| 0 <= i < j < t.len() ==> t[i].0 != t[j].0
}

/// The table has a column of cells under key `k`.
pub open spec fn has_cells(t: TableView, k: Seq<char>) -> bool {
    exists|i: int| 0 <= i < t.len() && t[i].0 == k && t[i].1 is Cells
}

/// Every entry of `t2` is a column of cells that `t1` has as a column of cells too.
pub open spec fn appendable(t1: TableView, t2: TableView) -> bool {
    forall|j: int| #![trigger t2[j]] 0 <= j < t2.len() ==> t2[j].1 is Cells && has_cells(t1, t2[j].0)
}

/// The cells that `t2` holds under key `k`, in order.
pub open spec fn cells_under(t2: TableView, k: Seq<char>) -> Seq<Json>
    decreases t2.len(),
{
    if t2.len() == 0 {
        Seq::empty()
    } else {
        let last = t2.last();
        cells_under(t2.drop_last(), k) + if last.0 == k && last.1 is Cells {
            last.1->Cells_0
        } else {
            Seq::empty()
        }
    }
}

/// `t1` with the cells of `t2` appended to each column of the same key.
pub open spec fn append_tables(t1: TableView, t2: TableView) -> TableView {
    t1.map_values(
        |e: (Seq<char>, ColumnView)|
            (
                e.0,
                match e.1 {
                    ColumnView::Cells(c) => ColumnView::Cells(c + cells_under(t2, e.0)),
                    s => s,
                },
            ),
    )
}

/// The value is an object with no key twice.
pub open spec fn valid_object(v: Json) -> bool {
    v is Object && keys_unique(table_view(v->Object_0@))
}

/// Whether `append_json(doc1, doc2)` succeeds.
pub open spec fn merge_defined(doc1: Json, doc2: Json) -> bool {
    doc1 is Object && doc2 is Object && appendable(
        table_view(doc1->Object_0@),
        table_view(doc2->Object_0@),
    )
}

proof fn lemma_cells_under_prefix(t2: TableView, j: int, k: Seq<char>)
    requires
        0 <= j < t2.len(),
    ensures
        cells_under(t2.subrange(0, j + 1), k) == cells_under(t2.subrange(0, j), k) + if t2[j].0
            == k && t2[j].1 is Cells {
            t2[j].1->Cells_0
        } else {
            Seq::empty()
        },
{
    let s = t2.subrange(0, j + 1);
    assert(s.drop_last() =~= t2.subrange(0, j));
}

proof fn lemma_cells_under_absent(t: TableView, k: Seq<char>)
    requires
        forall|i: int| 0 <= i < t.len() ==> t[i].0 != k,
    ensures
        cells_under(t, k) == Seq::<Json>::empty(),
    decreases t.len(),
{
    if t.len() > 0 {
        lemma_cells_under_absent(t.drop_last(), k);
        assert(cells_under(t, k) =~= Seq::<Json>::empty());
    }
}

proof fn lemma_cells_under_single(t: TableView, k: Seq<char>, i: int)
    requires
        0 <= i < t.len(),
        t[i].0 == k,
        forall|m: int| 0 <= m < t.len() && m != i ==> t[m].0 != k,
    ensures
        cells_under(t, k) == if t[i].1 is Cells {
            t[i].1->Cells_0
        } else {
            Seq::empty()
        },
    decreases t.len(),
{
    let d = t.drop_last();
    if i == t.len() - 1 {
        lemma_cells_under_absent(d, k);
        assert(cells_under(t, k) =~= cells_under(d, k) + if t[i].1 is Cells {
            t[i].1->Cells_0
        } else {
            Seq::empty()
        });
        assert(Seq::<Json>::empty() + (if t[i].1 is Cells {
            t[i].1->Cells_0
        } else {
            Seq::empty()
        }) =~= if t[i].1 is Cells {
            t[i].1->Cells_0
        } else {
            Seq::empty()
        });
    } else {
        lemma_cells_under_single(d, k, i);
        assert(cells_under(t, k) =~= cells_under(d, k));
    }
}

proof fn lemma_cells_under_split(a: TableView, b: TableView, k: Seq<char>)
    requires
        keys_unique(a),
        appendable(a, b),
    ensures
        cells_under(append_tables(a, b), k) == cells_under(a, k) + cells_under(b, k),
{
    let ab = append_tables(a, b);
    if exists|i: int| 0 <= i < a.len() && a[i].0 == k {
        let i = choose|i: int| 0 <= i < a.len() && a[i].0 == k;
        lemma_cells_under_single(a, k, i);
        assert forall|m: int| 0 <= m < ab.len() && m != i implies ab[m].0 != k by {
            assert(ab[m].0 == a[m].0);
        }
        lemma_cells_under_single(ab, k, i);
        if a[i].1 is Cells {
            assert(cells_under(ab, k) =~= cells_under(a, k) + cells_under(b, k));
        } else {
            assert forall|y: int| 0 <= y < b.len() implies b[y].0 != k by {
                if b[y].0 == k {
                    assert(has_cells(a, b[y].0));
                    let w = choose|w: int| 0 <= w < a.len() && a[w].0 == b[y].0 && a[w].1 is Cells;
                    assert(w == i);
                }
            }
            lemma_cells_under_absent(b, k);
            assert(cells_under(ab, k) =~= cells_under(a, k) + cells_under(b, k));
        }
    } else {
        lemma_cells_under_absent(a, k);
        assert forall|m: int| 0 <= m < ab.len() implies ab[m].0 != k by {
            assert(ab[m].0 == a[m].0);
        }
        lemma_cells_under_absent(ab, k);
        assert forall|y: int| 0 <= y < b.len() implies b[y].0 != k by {
            if b[y].0 == k {
                assert(has_cells(a, b[y].0));
            }
        }
        lemma_cells_under_absent(b, k);
        assert(cells_under(ab, k) =~= cells_under(a, k) + cells_under(b, k));
    }
}

/// Appending `a` and then `b` to a pool `j` gives, column by column, what
/// appending to `j` the result of appending `b` to `a` gives: whenever the
/// latter succeeds, so do both steps of the former, with the same result.
pub proof fn lemma_append_associative(j: TableView, a: TableView, b: TableView)
    requires
        keys_unique(j),
        keys_unique(a),
        appendable(a, b),
        appendable(j, append_tables(a, b)),
    ensures
        appendable(j, a),
        appendable(append_tables(j, a), b),
        append_tables(append_tables(j, a), b) == append_tables(j, append_tables(a, b)),
{
    let ab = append_tables(a, b);
    let ja = append_tables(j, a);
    assert forall|x: int| #![trigger a[x]] 0 <= x < a.len() implies a[x].1 is Cells && has_cells(
        j,
        a[x].0,
    ) by {
        assert(ab[x].0 == a[x].0);
        assert(ab[x].1 is Cells);
    }
    assert forall|y: int| #![trigger b[y]] 0 <= y < b.len() implies b[y].1 is Cells && has_cells(
        ja,
        b[y].0,
    ) by {
        let x = choose|x: int| 0 <= x < a.len() && a[x].0 == b[y].0 && a[x].1 is Cells;
        assert(has_cells(j, a[x].0));
        let z = choose|z: int| 0 <= z < j.len() && j[z].0 == a[x].0 && j[z].1 is Cells;
        assert(ja[z].0 == j[z].0 && ja[z].1 is Cells);
    }
    let lhs = append_tables(ja, b);
    let rhs = append_tables(j, ab);
    assert forall|m: int| 0 <= m < j.len() implies #[trigger] lhs[m] == rhs[m] by {
        let k = j[m].0;
        lemma_cells_under_split(a, b, k);
        match j[m].1 {
            ColumnView::Cells(c) => {
                assert(c + cells_under(a, k) + cells_under(b, k) =~= c + (cells_under(a, k)
                    + cells_under(b, k)));
            },
            _ => {},
        }
    }
    assert(lhs =~= rhs);
}

/// Two right-hand documents with no key in common can be appended to a pool
/// in either order, with the same result: column `k` gets the cells of
/// whichever of the two has `k`.
pub proof fn lemma_append_disjoint_commutes(j: TableView, a: TableView, b: TableView)
    requires
        keys_unique(j),
        appendable(j, a),
        appendable(j, b),
        forall|x: int, y: int| 0 <= x < a.len() && 0 <= y < b.len() ==> a[x].0 != b[y].0,
    ensures
        appendable(append_tables(j, a), b),
        appendable(append_tables(j, b), a),
        append_tables(append_tables(j, a), b) == append_tables(append_tables(j, b), a),
{
    let ja = append_tables(j, a);
    let jb = append_tables(j, b);
    assert forall|y: int| #![trigger b[y]] 0 <= y < b.len() implies b[y].1 is Cells && has_cells(
        ja,
        b[y].0,
    ) by {
        let z = choose|z: int| 0 <= z < j.len() && j[z].0 == b[y].0 && j[z].1 is Cells;
        assert(ja[z].0 == j[z].0 && ja[z].1 is Cells);
    }
    assert forall|x: int| #![trigger a[x]] 0 <= x < a.len() implies a[x].1 is Cells && has_cells(
        jb,
        a[x].0,
    ) by {
        let z = choose|z: int| 0 <= z < j.len() && j[z].0 == a[x].0 && j[z].1 is Cells;
        assert(jb[z].0 == j[z].0 && jb[z].1 is Cells);
    }
    let lhs = append_tables(ja, b);
    let rhs = append_tables(jb, a);
    assert forall|m: int| 0 <= m < j.len() implies #[trigger] lhs[m] == rhs[m] by {
        let k = j[m].0;
        if exists|x: int| 0 <= x < a.len() && a[x].0 == k {
            let x = choose|x: int| 0 <= x < a.len() && a[x].0 == k;
            assert forall|y: int| 0 <= y < b.len() implies b[y].0 != k by {
                assert(a[x].0 != b[y].0);
            }
            lemma_cells_under_absent(b, k);
        } else {
            lemma_cells_under_absent(a, k);
        }
        match j[m].1 {
            ColumnView::Cells(c) => {
                assert(c + cells_under(a, k) + cells_under(b, k) =~= c + cells_under(b, k)
                    + cells_under(a, k));
            },
            _ => {},
        }
    }
    assert(lhs =~= rhs);
}

/// Position of the first entry under key `k`.
fn find_key(es: &Vec<Member>, k: &String) -> (r: Option<usize>)
    ensures
        match r {
            Some(i) => i < es@.len() && es@[i as int].key@ == k@ && forall|m: int|
                0 <= m < i ==> es@[m].key@ != k@,
            None => forall|m: int| 0 <= m < es@.len() ==> es@[m].key@ != k@,
        },
{
    let mut i: usize = 0;
    while i < es.len()
        invariant
            i <= es@.len(),
            forall|m: int| 0 <= m < i ==> es@[m].key@ != k@,
        decreases es.len() - i,
    {
        if es[i].key == *k {
            return Some(i);
        }
        i = i + 1;
    }
    None
}

/// `j` is the first position of key `k` among the members.
pub open spec fn first_with_key(es: Seq<Member>, k: Seq<char>, j: int) -> bool {
    0 <= j < es.len() && es[j].key@ == k && forall|m: int| 0 <= m < j ==> es[m].key@ != k
}

/// Structural equality of two documents. Arrays compare element by element;
/// objects compare as maps: the same number of members, and each key of `a`
/// found in `b` with an equal value.
pub open spec fn json_same(a: Json, b: Json) -> bool
    decreases a,
{
    match a {
        Json::Null => b is Null,
        Json::Bool(x) => b is Bool && b->Bool_0 == x,
        Json::Number(x) => b is Number && b->Number_0@ == x@,
        Json::Str(x) => b is Str && b->Str_0@ == x@,
        Json::Array(xs) => b is Array && xs@.len() == b->Array_0@.len() && forall|i: int|
            0 <= i < xs@.len() ==> json_same(#[trigger] xs@[i], b->Array_0@[i]),
        Json::Object(xs) => b is Object && xs@.len() == b->Object_0@.len() && forall|i: int|
            #![trigger xs@[i]]
            0 <= i < xs@.len() ==> exists|j: int|
                #![trigger b->Object_0@[j]]
                first_with_key(b->Object_0@, xs@[i].key@, j) && json_same(
                    xs@[i].value,
                    b->Object_0@[j].value,
                ),
    }
}

/// Member `x` has its key in `ys`, first found with an equal value.
pub open spec fn member_found(ys: Seq<Member>, x: Member) -> bool {
    exists|j: int| first_with_key(ys, x.key@, j) && json_same(x.value, ys[j].value)
}

/// Decides `json_same`.
pub fn json_equal(a: &Json, b: &Json) -> (r: bool)
    ensures
        r == json_same(*a, *b),
    decreases a,
{
    proof {
        reveal_with_fuel(json_same, 2);
    }
    match a {
        Json::Null => matches!(b, Json::Null),
        Json::Bool(x) => match b {
            Json::Bool(y) => *x == *y,
            _ => false,
        },
        Json::Number(x) => match b {
            Json::Number(y) => *x == *y,
            _ => false,
        },
        Json::Str(x) => match b {
            Json::Str(y) => *x == *y,
            _ => false,
        },
        Json::Array(xs) => {
            let ys = match b {
                Json::Array(ys) => ys,
                _ => return false,
            };
            if xs.len() != ys.len() {
                return false;
            }
            let mut i: usize = 0;
            while i < xs.len()
                invariant
                    i <= xs@.len() == ys@.len(),
                    *a == Json::Array(*xs),
                    *b == Json::Array(*ys),
                    forall|m: int| 0 <= m < i ==> json_same(#[trigger] xs@[m], ys@[m]),
                decreases xs.len() - i,
            {
                proof {
                    assert(decreases_to!(*a => a->Array_0));
                    assert(decreases_to!(a->Array_0 => a->Array_0@));
                    assert(decreases_to!(a->Array_0@ => a->Array_0@[i as int]));
                }
                if !json_equal(&xs[i], &ys[i]) {
                    assert(!json_same(xs@[i as int], ys@[i as int]));
                    return false;
                }
                i = i + 1;
            }
            assert(json_same(*a, *b));
            true
        },
        Json::Object(xs) => {
            let ys = match b {
                Json::Object(ys) => ys,
                _ => return false,
            };
            if xs.len() != ys.len() {
                return false;
            }
            let mut i: usize = 0;
            while i < xs.len()
                invariant
                    i <= xs@.len() == ys@.len(),
                    *a == Json::Object(*xs),
                    *b == Json::Object(*ys),
                    forall|m: int| 0 <= m < i ==> member_found(ys@, #[trigger] xs@[m]),
                decreases xs.len() - i,
            {
                let ghost mut jw: int = 0;
                match find_key(ys, &xs[i].key) {
                    Some(j) => {
                        proof {
                            jw = j as int;
                            assert(decreases_to!(*a => a->Object_0));
                            assert(decreases_to!(a->Object_0 => a->Object_0@));
                            assert(decreases_to!(a->Object_0@ => a->Object_0@[i as int]));
                            assert(decreases_to!(a->Object_0@[i as int] => a->Object_0@[i as int].value));
                        }
                        if !json_equal(&xs[i].value, &ys[j].value) {
                            proof {
                                assert forall|j2: int| first_with_key(ys@, xs@[i as int].key@, j2)
                                    implies j2 == j by {
                                    lemma_first_with_key_unique(ys@, xs@[i as int].key@, j2, j as int);
                                }
                            }
                            return false;
                        }
                        assert(first_with_key(ys@, xs@[i as int].key@, j as int) && json_same(
                            xs@[i as int].value,
                            ys@[j as int].value,
                        ));
                    },
                    None => {
                        return false;
                    },
                }
                let ghost ii = i as int;
                i = i + 1;
                assert forall|m: int| 0 <= m < i implies member_found(ys@, #[trigger] xs@[m]) by {
                    if m == ii {
                        assert(first_with_key(ys@, xs@[m].key@, jw) && json_same(
                            xs@[m].value,
                            ys@[jw].value,
                        ));
                    }
                }
            }
            assert forall|m: int| #![trigger xs@[m]] 0 <= m < xs@.len() implies exists|j: int|
                #![trigger ys@[j]]
                first_with_key(ys@, xs@[m].key@, j) && json_same(xs@[m].value, ys@[j].value) by {
                assert(member_found(ys@, xs@[m]));
                let j = choose|j: int|
                    first_with_key(ys@, xs@[m].key@, j) && json_same(xs@[m].value, ys@[j].value);
                assert(first_with_key(ys@, xs@[m].key@, j) && json_same(xs@[m].value, ys@[j].value));
            }
            assert(json_same(*a, *b));
            true
        },
    }
}

proof fn lemma_first_with_key_unique(es: Seq<Member>, k: Seq<char>, i: int, j: int)
    requires
        first_with_key(es, k, i),
        first_with_key(es, k, j),
    ensures
        i == j,
{
    if i < j {
        assert(es[i].key@ != k);
    } else if j < i {
        assert(es[j].key@ != k);
    }
}

/// The value under key `k` among the members, at its first position.
pub open spec fn member_value(es: Seq<Member>, k: Seq<char>) -> Option<Json> {
    if exists|j: int| first_with_key(es, k, j) {
        Some(es[choose|j: int| first_with_key(es, k, j)].value)
    } else {
        None
    }
}

/// Both absent, or both present and structurally equal.
pub open spec fn same_option(a: Option<Json>, b: Option<Json>) -> bool {
    match (a, b) {
        (None, None) => true,
        (Some(x), Some(y)) => json_same(x, y),
        _ => false,
    }
}

/// Two schemas are compatible when both are objects whose `properties`
/// descriptors are structurally equal (the same property keys, each with an
/// equal descriptor) and whose `required` lists are equal element by element.
pub open spec fn schemas_match(s1: Json, s2: Json) -> bool {
    &&& s1 is Object
    &&& s2 is Object
    &&& same_option(
        member_value(s1->Object_0@, "properties"@),
        member_value(s2->Object_0@, "properties"@),
    )
    &&& same_option(
        member_value(s1->Object_0@, "required"@),
        member_value(s2->Object_0@, "required"@),
    )
}

fn member<'a>(es: &'a Vec<Member>, k: &String) -> (r: Option<&'a Json>)
    ensures
        match r {
            Some(v) => member_value(es@, k@) == Some(*v),
            None => member_value(es@, k@) is None,
        },
{
    match find_key(es, k) {
        Some(j) => {
            proof {
                assert(first_with_key(es@, k@, j as int));
                let c = choose|c: int| first_with_key(es@, k@, c);
                lemma_first_with_key_unique(es@, k@, c, j as int);
            }
            Some(&es[j].value)
        },
        None => None,
    }
}

fn same_member(s1: &Vec<Member>, s2: &Vec<Member>, k: &String) -> (r: bool)
    ensures
        r == same_option(member_value(s1@, k@), member_value(s2@, k@)),
{
    match (member(s1, k), member(s2, k)) {
        (None, None) => true,
        (Some(x), Some(y)) => json_equal(x, y),
        _ => false,
    }
}

/// Whether documents under schema `s2` may be appended to a pool under schema `s1`.
pub fn schemas_compatible(s1: &Json, s2: &Json) -> (r: bool)
    ensures
        r == schemas_match(*s1, *s2),
{
    match s1 {
        Json::Object(m1) => match s2 {
            Json::Object(m2) => {
                let properties = "properties".to_string();
                let required = "required".to_string();
                same_member(m1, m2, &properties) && same_member(m1, m2, &required)
            },
            _ => false,
        },
        _ => false,
    }
}

/// Whether the value is an object with no key twice.
pub fn is_valid_object(v: &Json) -> (r: bool)
    ensures
        r == valid_object(*v),
{
    let es = match v {
        Json::Object(es) => es,
        _ => return false,
    };
    let ghost t = table_view(es@);
    let mut j: usize = 0;
    while j < es.len()
        invariant
            j <= es@.len(),
            t == table_view(es@),
            *v == Json::Object(*es),
            forall|a: int, b: int| 0 <= a < b < j ==> t[a].0 != t[b].0,
        decreases es.len() - j,
    {
        match find_key(es, &es[j].key) {
            Some(i) => {
                if i < j {
                    assert(t[i as int].0 == t[j as int].0);
                    return false;
                }
            },
            None => {},
        }
        proof {
            assert forall|a: int| 0 <= a < j implies t[a].0 != t[j as int].0 by {
                assert(t[a].0 == es@[a].key@);
            }
        }
        j = j + 1;
    }
    true
}

/// Appends the columns of `doc2` to the columns of `doc1` with the same key.
///
/// Both must be objects; each entry of `doc2` must be an array whose key is an
/// array column of `doc1`. Columns of `doc1` that `doc2` lacks stay as they are.
pub fn append_json(doc1: Json, doc2: Json) -> (r: Result<Json, MergeError>)
    requires
        doc1 is Object ==> valid_object(doc1),
    ensures
        r is Ok <==> merge_defined(doc1, doc2),
        r is Err ==> r == Err::<Json, MergeError>(MergeError::MergeShape),
        r matches Ok(d) ==> valid_object(d) && table_view(d->Object_0@) == append_tables(
            table_view(doc1->Object_0@),
            table_view(doc2->Object_0@),
        ),
{
    let mut e1 = match doc1 {
        Json::Object(a) => a,
        _ => return Err(MergeError::MergeShape),
    };
    let mut e2 = match doc2 {
        Json::Object(b) => b,
        _ => return Err(MergeError::MergeShape),
    };
    assert(doc1 is Object && e1@ == doc1->Object_0@);
    assert(doc2 is Object && e2@ == doc2->Object_0@);
    let ghost t1 = table_view(e1@);
    let ghost t2 = table_view(e2@);
    // Check every entry first, so that a failure leaves nothing half merged.
    let mut j: usize = 0;
    while j < e2.len()
        invariant
            j <= e2@.len(),
            t1 == table_view(e1@),
            t2 == table_view(e2@),
            e1@ == doc1->Object_0@,
            e2@ == doc2->Object_0@,
            keys_unique(t1),
            forall|m: int| #![trigger t2[m]] 0 <= m < j ==> t2[m].1 is Cells && has_cells(t1, t2[m].0),
        decreases e2.len() - j,
    {
        let found = find_key(&e1, &e2[j].key);
        proof {
            assert(t2[j as int] == (e2@[j as int].key@, column_view(e2@[j as int].value)));
            assert forall|w: int| 0 <= w < t1.len() implies #[trigger] t1[w] == (
                e1@[w].key@,
                column_view(e1@[w].value),
            ) by {}
        }
        let ok = match found {
            Some(i) => matches!(e1[i].value, Json::Array(_)) && matches!(e2[j].value, Json::Array(_)),
            None => false,
        };
        if !ok {
            assert(!merge_defined(doc1, doc2)) by {
                assert(table_view(doc1->Object_0@) == t1);
                assert(table_view(doc2->Object_0@) == t2);
                let k = t2[j as int].0;
                if has_cells(t1, k) && t2[j as int].1 is Cells {
                    let w = choose|w: int| 0 <= w < t1.len() && t1[w].0 == k && t1[w].1 is Cells;
                    assert(t1[w] == (e1@[w].key@, column_view(e1@[w].value)));
                    match found {
                        Some(i) => {
                            assert(t1[i as int].0 == k);
                            assert(w == i);
                        },
                        None => {},
                    }
                }
                assert(!(t2[j as int].1 is Cells && has_cells(t1, t2[j as int].0)));
                assert(!appendable(t1, t2));
            }
            return Err(MergeError::MergeShape);
        }
        let ghost jj = j as int;
        proof {
            let i = found->Some_0 as int;
            assert(e1@[i].value is Array);
            assert(e2@[j as int].value is Array);
            assert(t1[i].0 == t2[j as int].0 && t1[i].1 is Cells);
            assert(t2[j as int].1 is Cells);
            assert(has_cells(t1, t2[j as int].0));
        }
        j = j + 1;
        assert forall|m: int| #![trigger t2[m]] 0 <= m < j implies t2[m].1 is Cells && has_cells(t1, t2[m].0) by {
            if m == jj {
                let i = found->Some_0 as int;
                assert(t1[i].0 == t2[m].0 && t1[i].1 is Cells);
                assert(t2[m].1 is Cells);
                assert(has_cells(t1, t2[m].0));
            } else {
                assert(m < jj);
                assert(t2[m].1 is Cells);
                assert(has_cells(t1, t2[m].0));
            }
        }
    }
    assert(appendable(t1, t2));
    let ghost n2 = e2@.len();
    let ghost orig2 = e2@;
    let mut done: usize = 0;
    proof {
        assert(orig2.subrange(0, n2 as int) =~= orig2);
        assert(t2.subrange(0, 0) =~= Seq::empty());
        assert forall|k: Seq<char>| cells_under(t2.subrange(0, 0), k) =~= Seq::<Json>::empty() by {}
        assert forall|m: int| 0 <= m < t1.len() implies #[trigger] append_tables(t1, t2.subrange(0, 0))[m] == t1[m] by {
            match t1[m].1 {
                ColumnView::Cells(c) => assert(c + cells_under(t2.subrange(0, 0), t1[m].0) =~= c),
                _ => {},
            }
        }
        assert(append_tables(t1, t2.subrange(0, 0)) =~= t1);
    }
    while e2.len() > 0
        invariant
            done + e2@.len() == n2,
            done <= n2 <= usize::MAX,
            n2 == orig2.len(),
            e2@ == orig2.subrange(done as int, n2 as int),
            t2 == table_view(orig2),
            appendable(t1, t2),
            keys_unique(t1),
            table_view(e1@) == append_tables(t1, t2.subrange(0, done as int)),
        decreases e2.len(),
    {
        let first = e2.remove(0);
        proof {
            assert(first == orig2[done as int]);
            assert(t2[done as int] == (first.key@, column_view(first.value)));
        }
        let Member { key, value: val } = first;
        let ghost pre = e1@;
        let ghost old_t = append_tables(t1, t2.subrange(0, done as int));
        let idx = find_key(&e1, &key);
        let ghost w = choose|w: int| 0 <= w < t1.len() && t1[w].0 == key@ && t1[w].1 is Cells;
        proof {
            assert(t2[done as int].1 is Cells && has_cells(t1, t2[done as int].0));
            assert(table_view(pre).len() == pre.len());
            assert(old_t.len() == t1.len());
            assert(table_view(pre)[w] == old_t[w]);
            assert(pre[w].key@ == key@);
        }
        let i = match idx {
            Some(i) => i,
            None => return Err(MergeError::MergeShape),
        };
        proof {
            assert(table_view(pre)[i as int] == old_t[i as int]);
            assert(t1[i as int].0 == key@);
            assert(i == w);
            assert(pre[w].value is Array);
            assert(val is Array);
        }
        let Member { key: k1, value: v1 } = e1.remove(i);
        let merged = match (v1, val) {
            (Json::Array(mut a), Json::Array(mut b)) => {
                a.append(&mut b);
                Json::Array(a)
            },
            (v1, _) => v1,
        };
        e1.insert(i, Member { key: k1, value: merged });
        proof {
            let new_t = append_tables(t1, t2.subrange(0, done + 1));
            assert(e1@.len() == pre.len());
            assert forall|m: int| 0 <= m < t1.len() implies #[trigger] table_view(e1@)[m]
                == new_t[m] by {
                let k = t1[m].0;
                lemma_cells_under_prefix(t2, done as int, k);
                assert(table_view(pre)[m] == old_t[m]);
                if m != i {
                    assert(t1[m].0 != t1[i as int].0);
                    assert(e1@[m] == pre[m]);
                    match t1[m].1 {
                        ColumnView::Cells(c) => {
                            assert(c + cells_under(t2.subrange(0, done + 1), k) =~= c
                                + cells_under(t2.subrange(0, done as int), k));
                        },
                        _ => {},
                    }
                } else {
                    let c = t1[m].1->Cells_0;
                    let x = cells_under(t2.subrange(0, done as int), k);
                    let bb = t2[done as int].1->Cells_0;
                    assert(c + x + bb =~= c + (x + bb));
                }
            }
            assert(table_view(e1@) =~= new_t);
        }
        done = done + 1;
    }
    assert(t2.subrange(0, n2 as int) =~= t2);
    proof {
        assert forall|a: int, b: int| 0 <= a < b < table_view(e1@).len() implies table_view(
            e1@,
        )[a].0 != table_view(e1@)[b].0 by {
            assert(table_view(e1@)[a].0 == t1[a].0);
            assert(table_view(e1@)[b].0 == t1[b].0);
        }
    }
    Ok(Json::Object(e1))
}

} // verus!
