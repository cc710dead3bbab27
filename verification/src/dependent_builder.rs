//! Descriptors of the objects that depend on the target table: views whose
//! definitions reference its columns, and foreign-key constraints that point
//! at it. The catalog resolver fills these from its two metadata queries.

use vstd::prelude::*;
use vstd::string::StringExecFns;

verus! {

/// A view that depends on one or more columns of the source table.
///
/// `column_names` holds the referenced columns of the source table; a view
/// referencing several columns is described by a single descriptor. The
/// uniqueness key is `(dependent_schema, dependent_view)`.
#[derive(Debug)]
pub struct DependentObject {
    pub dependent_schema: String,
    pub dependent_view: String,
    pub source_schema: String,
    pub source_table: String,
    pub column_names: Vec<String>,
}

/// The schema-qualified name of a dependent view.
pub open spec fn full_name_spec(schema: Seq<char>, name: Seq<char>) -> Seq<char> {
    schema + "."@ + name
}

/// The comma-separated join of a list of column names.
pub open spec fn joined_columns_spec(cols: Seq<Seq<char>>) -> Seq<char>
    decreases cols.len(),
{
    if cols.len() == 0 {
        Seq::empty()
    } else if cols.len() == 1 {
        cols[0]
    } else {
        joined_columns_spec(cols.drop_last()) + ", "@ + cols.last()
    }
}

impl DependentObject {
    /// The schema-qualified name of this view.
    pub open spec fn spec_full_name(&self) -> Seq<char> {
        full_name_spec(self.dependent_schema@, self.dependent_view@)
    }

    pub fn get_full_name(&self) -> (r: String)
        ensures
            r@ == self.spec_full_name(),
    {
        let mut r = self.dependent_schema.clone();
        r.append(".");
        r.append(self.dependent_view.as_str());
        r
    }

    pub fn get_type_name(&self) -> (r: &'static str)
        ensures
            r@ == "VIEW"@,
    {
        "VIEW"
    }

    /// The referenced column names joined by a comma and a space.
    pub fn joined_column_names(&self) -> (r: String)
        ensures
            r@ == joined_columns_spec(self.column_names.deep_view()),
    {
        let ghost cols = self.column_names.deep_view();
        let mut r = String::new();
        let mut i: usize = 0;
        while i < self.column_names.len()
            invariant
                cols == self.column_names.deep_view(),
                cols.len() == self.column_names@.len(),
                forall|k: int| 0 <= k < cols.len() ==> cols[k] == self.column_names@[k]@,
                i <= cols.len(),
                r@ == joined_columns_spec(cols.subrange(0, i as int)),
            decreases cols.len() - i,
        {
            if i > 0 {
                r.append(", ");
            }
            r.append(self.column_names[i].as_str());
            i = i + 1;
            proof {
                let t = cols.subrange(0, i as int);
                assert(t.drop_last() =~= cols.subrange(0, i - 1));
                assert(t.last() == cols[i - 1]);
            }
        }
        proof {
            assert(cols.subrange(0, cols.len() as int) =~= cols);
        }
        r
    }
}

/// A foreign-key constraint whose referenced table is the target.
///
/// The `dependent_*` fields describe the constraint-owning (child) table and
/// column; the `foreign_*` fields describe the referenced table and column.
/// A composite key yields one descriptor per constrained column, all sharing
/// `constraint_name`.
#[derive(Debug)]
pub struct ForeignKey {
    pub constraint_name: String,
    pub dependent_table_schema: String,
    pub dependent_table_name: String,
    pub dependent_column_name: String,
    pub foreign_table_schema: String,
    pub foreign_table_name: String,
    pub foreign_column_name: String,
}

impl ForeignKey {
    /// The schema-qualified name of the constraint-owning table.
    pub open spec fn spec_parent_table_name(&self) -> Seq<char> {
        full_name_spec(self.dependent_table_schema@, self.dependent_table_name@)
    }

    pub fn get_parent_table_name(&self) -> (r: String)
        ensures
            r@ == self.spec_parent_table_name(),
    {
        let mut r = self.dependent_table_schema.clone();
        r.append(".");
        r.append(self.dependent_table_name.as_str());
        r
    }
}

} // verus!
