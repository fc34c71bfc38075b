//! Column descriptors of an overlaid table, and the parsing and validation
//! of the textual schema description the host hands the overlay.
//!
//! An overlay instance is created from an ordered column list. Over the host
//! boundary that list travels as one text: column definitions separated by
//! `|`, each `name:TYPE` with an optional `:PK` marking a declared-key
//! column. A malformed definition is a schema error, fatal to the attach.

use vstd::prelude::*;

use crate::text::{ci_equal, split_chars, split_str, str_equal, trim_str, trimmed};
use crate::text::eq_ignore_ascii_case;

verus! {

/// The mathematical content of a `ColumnDescriptor`.
pub struct ColumnModel {
    pub name: Seq<char>,
    pub declared_type: Seq<char>,
    pub is_primary_key: bool,
}

/// One column of the overlaid table: its name, its declared type, and
/// whether it belongs to the declared key. The ordered list of these is
/// immutable for the lifetime of an open overlay instance.
#[derive(Debug, Clone)]
pub struct ColumnDescriptor {
    pub name: String,
    pub declared_type: String,
    pub is_primary_key: bool,
}

impl View for ColumnDescriptor {
    type V = ColumnModel;

    open spec fn view(&self) -> ColumnModel {
        ColumnModel {
            name: self.name@,
            declared_type: self.declared_type@,
            is_primary_key: self.is_primary_key,
        }
    }
}

impl DeepView for ColumnDescriptor {
    type V = ColumnModel;

    open spec fn deep_view(&self) -> ColumnModel {
        self@
    }
}

impl ColumnDescriptor {
    /// An identical descriptor.
    pub fn duplicate(&self) -> (r: ColumnDescriptor)
        ensures
            r@ == self@,
    {
        ColumnDescriptor {
            name: self.name.clone(),
            declared_type: self.declared_type.clone(),
            is_primary_key: self.is_primary_key,
        }
    }
}

/// A malformed column or key description, fatal to the attach call.
#[derive(Debug, Clone)]
pub enum SchemaError {
    /// A column definition with fewer than two or more than three fields.
    InvalidColumnDef(String),
}

/// The column that one schema token describes: `name:TYPE` or `name:TYPE:PK`,
/// each field trimmed; anything else is malformed.
pub open spec fn parsed_column_def(def: Seq<char>) -> Option<ColumnModel> {
    let parts = split_chars(def, ':');
    if parts.len() < 2 || parts.len() > 3 {
        None
    } else {
        Some(
            ColumnModel {
                name: trimmed(parts[0]),
                declared_type: trimmed(parts[1]),
                is_primary_key: parts.len() == 3 && trimmed(parts[2]) == "PK"@,
            },
        )
    }
}

/// The columns that a sequence of schema tokens describes, or nothing when
/// any token is malformed.
pub open spec fn parsed_column_defs(defs: Seq<Seq<char>>) -> Option<Seq<ColumnModel>>
    decreases defs.len(),
{
    if defs.len() == 0 {
        Some(Seq::empty())
    } else {
        match (parsed_column_def(defs[0]), parsed_column_defs(defs.skip(1))) {
            (Some(c), Some(rest)) => Some(seq![c] + rest),
            _ => None,
        }
    }
}

/// The columns that a whole schema text describes.
pub open spec fn parsed_schema(text: Seq<char>) -> Option<Seq<ColumnModel>> {
    parsed_column_defs(split_chars(text, '|'))
}

fn parse_column_def(def: &str) -> (r: Result<ColumnDescriptor, SchemaError>)
    ensures
        match r {
            Ok(c) => parsed_column_def(def@) == Some(c@),
            Err(_) => parsed_column_def(def@) is None,
        },
{
    let parts = split_str(def, ':');
    if parts.len() < 2 || parts.len() > 3 {
        return Err(SchemaError::InvalidColumnDef(def.to_owned()));
    }
    let name = trim_str(parts[0].as_str()).to_owned();
    let declared_type = trim_str(parts[1].as_str()).to_owned();
    let is_primary_key = if parts.len() == 3 {
        str_equal(trim_str(parts[2].as_str()), "PK")
    } else {
        false
    };
    Ok(ColumnDescriptor { name, declared_type, is_primary_key })
}

/// Parse the schema text the host hands the overlay into its column list,
/// reporting the first malformed definition.
pub fn parse_schema(text: &str) -> (r: Result<Vec<ColumnDescriptor>, SchemaError>)
    ensures
        match r {
            Ok(cols) => parsed_schema(text@) == Some(cols.deep_view()),
            Err(_) => parsed_schema(text@) is None,
        },
{
    let defs = split_str(text, '|');
    let ghost all = defs.deep_view();
    let mut out: Vec<ColumnDescriptor> = Vec::new();
    let mut i: usize = 0;
    proof {
        assert(all.skip(0) =~= all);
        assert(out.deep_view() =~= Seq::<ColumnModel>::empty());
    }
    while i < defs.len()
        invariant
            all == defs.deep_view(),
            all == split_chars(text@, '|'),
            0 <= i <= defs.len(),
            forall|rest: Seq<ColumnModel>|
                parsed_column_defs(all.skip(i as int)) == Some(rest) ==> parsed_column_defs(all)
                    == Some(out.deep_view() + rest),
            parsed_column_defs(all.skip(i as int)) is None ==> parsed_column_defs(all) is None,
        decreases defs.len() - i,
    {
        proof {
            assert(all.skip(i as int)[0] == all[i as int]);
            assert(all.skip(i as int).skip(1) =~= all.skip(i as int + 1));
        }
        let ghost old_out = out.deep_view();
        match parse_column_def(defs[i].as_str()) {
            Ok(c) => {
                let ghost cv = c@;
                out.push(c);
                proof {
                    assert(out.deep_view() =~= old_out.push(cv));
                    assert forall|rest: Seq<ColumnModel>|
                        parsed_column_defs(all.skip(i as int + 1)) == Some(rest) implies
                        parsed_column_defs(all) == Some(out.deep_view() + rest) by {
                        assert(parsed_column_defs(all.skip(i as int)) == Some(seq![cv] + rest));
                        assert(old_out + (seq![cv] + rest) =~= out.deep_view() + rest);
                    }
                }
            },
            Err(e) => {
                proof {
                    assert(parsed_column_def(all.skip(i as int)[0]) is None);
                    assert(parsed_column_defs(all.skip(i as int)) is None);
                }
                return Err(e);
            },
        }
        i = i + 1;
    }
    proof {
        assert(all.skip(defs.len() as int) =~= Seq::<Seq<char>>::empty());
        assert(parsed_column_defs(all.skip(defs.len() as int)) == Some(Seq::<ColumnModel>::empty()));
        assert(out.deep_view() + Seq::<ColumnModel>::empty() =~= out.deep_view());
    }
    Ok(out)
}

/// The trimmed column names that a column-list text names; an empty text
/// names no columns at all.
pub open spec fn parsed_column_list(text: Seq<char>) -> Seq<Seq<char>> {
    if text.len() == 0 {
        Seq::empty()
    } else {
        split_chars(text, '|').map_values(|p: Seq<char>| trimmed(p))
    }
}

/// Parse a `|`-separated column-name list, trimming each name.
pub fn parse_column_list(text: &str) -> (r: Vec<String>)
    ensures
        r.deep_view() == parsed_column_list(text@),
{
    let mut out: Vec<String> = Vec::new();
    if text.unicode_len() == 0 {
        proof {
            assert(out.deep_view() =~= parsed_column_list(text@));
        }
        return out;
    }
    let parts = split_str(text, '|');
    let ghost all = parts.deep_view();
    let mut i: usize = 0;
    while i < parts.len()
        invariant
            all == parts.deep_view(),
            0 <= i <= parts.len(),
            out.deep_view() == all.take(i as int).map_values(|p: Seq<char>| trimmed(p)),
        decreases parts.len() - i,
    {
        let ghost old_out = out.deep_view();
        out.push(trim_str(parts[i].as_str()).to_owned());
        proof {
            assert(out.deep_view() =~= old_out.push(trimmed(all[i as int])));
            assert(all.take(i as int + 1) =~= all.take(i as int).push(all[i as int]));
            assert(all.take(i as int + 1).map_values(|p: Seq<char>| trimmed(p)) =~= all.take(
                i as int,
            ).map_values(|p: Seq<char>| trimmed(p)).push(trimmed(all[i as int])));
        }
        i = i + 1;
    }
    proof {
        assert(all.take(parts.len() as int) =~= all);
    }
    out
}

/// Whether a declared type stores text: `TEXT`, `CLOB` or `CLOB(n)`, case
/// ignored.
pub open spec fn is_text_type(t: Seq<char>) -> bool {
    ci_equal(t, "TEXT"@) || ci_equal(t, "CLOB"@) || (t.len() >= 5 && ci_equal(
        t.take(5),
        "CLOB("@,
    ))
}

/// Whether a declared type stores text.
pub fn declared_type_is_text(t: &str) -> (r: bool)
    ensures
        r == is_text_type(t@),
{
    if eq_ignore_ascii_case(t, "TEXT") || eq_ignore_ascii_case(t, "CLOB") {
        return true;
    }
    if t.unicode_len() >= 5 {
        let head = t.substring_char(0, 5);
        proof {
            assert(head@ =~= t@.take(5));
        }
        eq_ignore_ascii_case(head, "CLOB(")
    } else {
        false
    }
}

/// The names of the text-typed columns, in table order.
pub open spec fn text_column_names(cols: Seq<ColumnModel>) -> Seq<Seq<char>>
    decreases cols.len(),
{
    if cols.len() == 0 {
        Seq::empty()
    } else {
        let rest = text_column_names(cols.skip(1));
        if is_text_type(cols[0].declared_type) {
            seq![cols[0].name] + rest
        } else {
            rest
        }
    }
}

/// The names of the text-typed columns of `cols`, in table order.
pub fn text_columns(cols: &Vec<ColumnDescriptor>) -> (r: Vec<String>)
    ensures
        r.deep_view() == text_column_names(cols.deep_view()),
{
    let ghost all = cols.deep_view();
    let mut out: Vec<String> = Vec::new();
    let mut i: usize = 0;
    proof {
        assert(all.skip(0) =~= all);
        assert(out.deep_view() =~= Seq::<Seq<char>>::empty());
    }
    while i < cols.len()
        invariant
            all == cols.deep_view(),
            0 <= i <= cols.len(),
            text_column_names(all) == out.deep_view() + text_column_names(all.skip(i as int)),
        decreases cols.len() - i,
    {
        proof {
            assert(all.skip(i as int)[0] == all[i as int]);
            assert(all.skip(i as int).skip(1) =~= all.skip(i as int + 1));
        }
        let ghost old_out = out.deep_view();
        if declared_type_is_text(cols[i].declared_type.as_str()) {
            out.push(cols[i].name.clone());
            proof {
                assert(out.deep_view() =~= old_out.push(all[i as int].name));
                assert(old_out + (seq![all[i as int].name] + text_column_names(
                    all.skip(i as int + 1),
                )) =~= out.deep_view() + text_column_names(all.skip(i as int + 1)));
            }
        }
        i = i + 1;
    }
    proof {
        assert(all.skip(cols.len() as int) =~= Seq::<ColumnModel>::empty());
        assert(out.deep_view() + Seq::<Seq<char>>::empty() =~= out.deep_view());
    }
    out
}

/// The names of the declared-key columns, in table order.
pub open spec fn pk_column_names(cols: Seq<ColumnModel>) -> Seq<Seq<char>>
    decreases cols.len(),
{
    if cols.len() == 0 {
        Seq::empty()
    } else {
        let rest = pk_column_names(cols.skip(1));
        if cols[0].is_primary_key {
            seq![cols[0].name] + rest
        } else {
            rest
        }
    }
}

/// The names of the declared-key columns of `cols`, in table order.
pub fn pk_columns(cols: &Vec<ColumnDescriptor>) -> (r: Vec<String>)
    ensures
        r.deep_view() == pk_column_names(cols.deep_view()),
{
    let ghost all = cols.deep_view();
    let mut out: Vec<String> = Vec::new();
    let mut i: usize = 0;
    proof {
        assert(all.skip(0) =~= all);
        assert(out.deep_view() =~= Seq::<Seq<char>>::empty());
    }
    while i < cols.len()
        invariant
            all == cols.deep_view(),
            0 <= i <= cols.len(),
            pk_column_names(all) == out.deep_view() + pk_column_names(all.skip(i as int)),
        decreases cols.len() - i,
    {
        proof {
            assert(all.skip(i as int)[0] == all[i as int]);
            assert(all.skip(i as int).skip(1) =~= all.skip(i as int + 1));
        }
        let ghost old_out = out.deep_view();
        if cols[i].is_primary_key {
            out.push(cols[i].name.clone());
            proof {
                assert(out.deep_view() =~= old_out.push(all[i as int].name));
                assert(old_out + (seq![all[i as int].name] + pk_column_names(
                    all.skip(i as int + 1),
                )) =~= out.deep_view() + pk_column_names(all.skip(i as int + 1)));
            }
        }
        i = i + 1;
    }
    proof {
        assert(all.skip(cols.len() as int) =~= Seq::<ColumnModel>::empty());
        assert(out.deep_view() + Seq::<Seq<char>>::empty() =~= out.deep_view());
    }
    out
}

/// The name of every column, in table order.
pub open spec fn column_names(cols: Seq<ColumnModel>) -> Seq<Seq<char>> {
    cols.map_values(|c: ColumnModel| c.name)
}

/// The names of all columns of `cols`, in table order.
pub fn column_name_list(cols: &Vec<ColumnDescriptor>) -> (r: Vec<String>)
    ensures
        r.deep_view() == column_names(cols.deep_view()),
{
    let ghost all = cols.deep_view();
    let mut out: Vec<String> = Vec::new();
    let mut i: usize = 0;
    proof {
        assert(out.deep_view() =~= all.take(0).map_values(|c: ColumnModel| c.name));
    }
    while i < cols.len()
        invariant
            all == cols.deep_view(),
            0 <= i <= cols.len(),
            out.deep_view() == all.take(i as int).map_values(|c: ColumnModel| c.name),
        decreases cols.len() - i,
    {
        let ghost old_out = out.deep_view();
        out.push(cols[i].name.clone());
        proof {
            assert(out.deep_view() =~= old_out.push(all[i as int].name));
            assert(all.take(i as int + 1).map_values(|c: ColumnModel| c.name) =~= all.take(
                i as int,
            ).map_values(|c: ColumnModel| c.name).push(all[i as int].name));
        }
        i = i + 1;
    }
    proof {
        assert(all.take(cols.len() as int) =~= all);
    }
    out
}

/// The index of the first declared-key column, if any.
pub open spec fn first_pk_index(cols: Seq<ColumnModel>) -> Option<int>
    decreases cols.len(),
{
    if cols.len() == 0 {
        None
    } else if cols[0].is_primary_key {
        Some(0int)
    } else {
        match first_pk_index(cols.skip(1)) {
            Some(i) => Some(i + 1),
            None => None,
        }
    }
}

/// With no declared-key column among the first `i` and one at `i`, the first
/// declared-key index is `i`.
proof fn lemma_first_pk_found(cols: Seq<ColumnModel>, i: int)
    requires
        0 <= i < cols.len(),
        cols[i].is_primary_key,
        forall|j: int| 0 <= j < i ==> !cols[j].is_primary_key,
    ensures
        first_pk_index(cols) == Some(i),
    decreases i,
{
    if i > 0 {
        lemma_first_pk_found(cols.skip(1), i - 1);
        assert(cols.skip(1)[i - 1] == cols[i]);
    }
}

/// With no declared-key column at all, there is no first declared-key index.
proof fn lemma_first_pk_none(cols: Seq<ColumnModel>)
    requires
        forall|j: int| 0 <= j < cols.len() ==> !cols[j].is_primary_key,
    ensures
        first_pk_index(cols) is None,
    decreases cols.len(),
{
    if cols.len() > 0 {
        lemma_first_pk_none(cols.skip(1));
    }
}

/// Find the first declared-key column.
pub fn find_first_pk(cols: &Vec<ColumnDescriptor>) -> (r: Option<usize>)
    ensures
        match r {
            Some(i) => first_pk_index(cols.deep_view()) == Some(i as int) && i < cols@.len(),
            None => first_pk_index(cols.deep_view()) is None,
        },
{
    let ghost all = cols.deep_view();
    let mut i: usize = 0;
    while i < cols.len()
        invariant
            all == cols.deep_view(),
            0 <= i <= cols.len(),
            forall|j: int| 0 <= j < i ==> !all[j].is_primary_key,
        decreases cols.len() - i,
    {
        if cols[i].is_primary_key {
            proof {
                lemma_first_pk_found(all, i as int);
            }
            return Some(i);
        }
        i = i + 1;
    }
    proof {
        lemma_first_pk_none(all);
    }
    None
}

/// The first column of `cols` named `name`, if any.
pub open spec fn find_column(cols: Seq<ColumnModel>, name: Seq<char>) -> Option<ColumnModel>
    decreases cols.len(),
{
    if cols.len() == 0 {
        None
    } else if cols[0].name == name {
        Some(cols[0])
    } else {
        find_column(cols.skip(1), name)
    }
}

/// Look a column up by name.
pub fn lookup_column(cols: &Vec<ColumnDescriptor>, name: &str) -> (r: Option<ColumnDescriptor>)
    ensures
        match r {
            Some(c) => find_column(cols.deep_view(), name@) == Some(c@),
            None => find_column(cols.deep_view(), name@) is None,
        },
{
    let ghost all = cols.deep_view();
    let mut i: usize = 0;
    proof {
        assert(all.skip(0) =~= all);
    }
    while i < cols.len()
        invariant
            all == cols.deep_view(),
            0 <= i <= cols.len(),
            find_column(all, name@) == find_column(all.skip(i as int), name@),
        decreases cols.len() - i,
    {
        proof {
            assert(all.skip(i as int)[0] == all[i as int]);
            assert(all.skip(i as int).skip(1) =~= all.skip(i as int + 1));
        }
        if str_equal(cols[i].name.as_str(), name) {
            return Some(cols[i].duplicate());
        }
        i = i + 1;
    }
    proof {
        assert(all.skip(cols.len() as int) =~= Seq::<ColumnModel>::empty());
    }
    None
}

} // verus!
