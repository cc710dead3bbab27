//! The script assembler and the DDL extractor: synthesized DROP statements,
//! normalization of raw dump text, extraction of one object's authoritative
//! definition, and the ordered accumulation of the final migration script.

use vstd::prelude::*;
use vstd::string::StrSliceExecFns;
use vstd::string::StringExecFns;

use crate::dependent_builder::{DependentObject, ForeignKey};
use crate::reassembly::{
    distinct_indices, lemma_reassembly_order_invariant, sort_by_index, sort_by_index_spec,
};
use crate::text::{
    chars_to_string, collapse_spaces_chars, collapse_spaces_spec, find_char_from, find_from,
    find_marker_from, first_char_from, first_marker_from, first_match_from,
    lemma_first_char_from_properties, lemma_first_marker_from_properties,
    lemma_first_match_from_properties, replace_all, replace_all_spec, str_to_chars, subrange_chars,
    strip_ctl_chars, strip_ctl_spec,
};

verus! {

/// The normalization and pattern match found no matching statement in the
/// dump for a descriptor. Recoverable per item: the caller logs the identity
/// and omits the item, and the batch otherwise completes.
#[derive(Debug)]
pub struct ExtractionNotFoundError {
    pub identity: String,
}

/// The migration script under construction: an append-only text buffer,
/// mutated only by the orchestrating caller and persisted once at the end.
#[derive(Clone)]
pub struct ScriptBuilder {
    pub file_buffer: String,
}

/// `DROP <TYPE> <NAME>;`
pub open spec fn delete_script_spec(obj_name: Seq<char>, obj_type: Seq<char>) -> Seq<char> {
    "DROP "@ + obj_type + " "@ + obj_name + ";"@
}

/// `ALTER TABLE <owner>\nDROP CONSTRAINT <name>;`
pub open spec fn fk_delete_script_spec(fk: ForeignKey) -> Seq<char> {
    "ALTER TABLE "@ + fk.spec_parent_table_name() + "\nDROP CONSTRAINT "@ + fk.constraint_name@
        + ";"@
}

/// The readability pass over a matched constraint definition: a line break
/// is inserted before each of the keywords `ADD CONSTRAINT`, `FOREIGN KEY`,
/// `REFERENCES` and `CHECK`, in that order, as independent replacements.
pub open spec fn fmt_query_spec(q: Seq<char>) -> Seq<char> {
    let r1 = replace_all_spec(q, " ADD CONSTRAINT"@, "\nADD CONSTRAINT"@);
    let r2 = replace_all_spec(r1, " FOREIGN KEY"@, "\nFOREIGN KEY"@);
    let r3 = replace_all_spec(r2, " REFERENCES"@, "\nREFERENCES"@);
    replace_all_spec(r3, " CHECK"@, "\nCHECK"@)
}

impl ScriptBuilder {
    /// An empty script buffer.
    pub fn new() -> (r: ScriptBuilder)
        ensures
            r.file_buffer@ == Seq::<char>::empty(),
    {
        ScriptBuilder { file_buffer: String::new() }
    }

    /// The assembled script text as it stands.
    pub fn render(&self) -> (r: String)
        ensures
            r@ == self.file_buffer@,
    {
        self.file_buffer.clone()
    }

    /// Append `content` to the script buffer.
    pub fn add_buffer_line(&mut self, content: &str)
        ensures
            final(self).file_buffer@ == old(self).file_buffer@ + content@,
    {
        self.file_buffer.append(content);
    }

    /// The DROP statement for one dependent object, synthesized directly
    /// from its name and type.
    pub fn get_delete_script(&self, obj_name: String, obj_type: String) -> (r: String)
        ensures
            r@ == delete_script_spec(obj_name@, obj_type@),
    {
        let mut r = String::from_str("DROP ");
        r.append(obj_type.as_str());
        r.append(" ");
        r.append(obj_name.as_str());
        r.append(";");
        proof {
            assert(r@ =~= delete_script_spec(obj_name@, obj_type@));
        }
        r
    }

    /// The DROP CONSTRAINT statement for one foreign key, synthesized
    /// directly from its descriptor.
    pub fn get_fk_delete_script(&self, fk: &ForeignKey) -> (r: String)
        ensures
            r@ == fk_delete_script_spec(*fk),
    {
        let mut r = String::from_str("ALTER TABLE ");
        let parent = fk.get_parent_table_name();
        r.append(parent.as_str());
        r.append("\nDROP CONSTRAINT ");
        r.append(fk.constraint_name.as_str());
        r.append(";");
        proof {
            assert(r@ =~= fk_delete_script_spec(*fk));
        }
        r
    }

    /// Collapse each interior run of spaces to a single space, by a left-to-
    /// right scan that never emits two adjacent space characters.
    pub fn collapse_spaces(input: &str) -> (r: String)
        ensures
            r@ == collapse_spaces_spec(input@),
    {
        let chars = str_to_chars(input);
        let collapsed = collapse_spaces_chars(&chars);
        chars_to_string(&collapsed)
    }

    /// Break a single-line constraint definition before each structural
    /// keyword so the emitted statement reads as several lines.
    pub fn fmt_query(query: &str) -> (r: String)
        ensures
            r@ == fmt_query_spec(query@),
    {
        proof {
            reveal_strlit(" ADD CONSTRAINT");
            reveal_strlit(" FOREIGN KEY");
            reveal_strlit(" REFERENCES");
            reveal_strlit(" CHECK");
        }
        let q = str_to_chars(query);
        let pat1 = str_to_chars(" ADD CONSTRAINT");
        let rep1 = str_to_chars("\nADD CONSTRAINT");
        let r1 = replace_all(&q, &pat1, &rep1);
        let pat2 = str_to_chars(" FOREIGN KEY");
        let rep2 = str_to_chars("\nFOREIGN KEY");
        let r2 = replace_all(&r1, &pat2, &rep2);
        let pat3 = str_to_chars(" REFERENCES");
        let rep3 = str_to_chars("\nREFERENCES");
        let r3 = replace_all(&r2, &pat3, &rep3);
        let pat4 = str_to_chars(" CHECK");
        let rep4 = str_to_chars("\nCHECK");
        let r4 = replace_all(&r3, &pat4, &rep4);
        chars_to_string(&r4)
    }
    /// The slice of `dump` that a `CREATE <TYPE>` extraction returns: the
    /// lines from the first line beginning with `marker` through the first
    /// later line containing a `;`, or through the end of the dump when no
    /// such line follows.
    pub open spec fn view_block_spec(dump: Seq<char>, marker: Seq<char>) -> Option<Seq<char>> {
        match first_marker_from(dump, marker, 0) {
            None => None,
            Some(p) => Some(
                match first_char_from(dump, '\n', p) {
                    None => dump.subrange(p, dump.len() as int),
                    Some(q) => match first_char_from(dump, ';', q + 1) {
                        None => dump.subrange(p, dump.len() as int),
                        Some(sc) => match first_char_from(dump, '\n', sc + 1) {
                            None => dump.subrange(p, dump.len() as int),
                            Some(e) => dump.subrange(p, e + 1),
                        },
                    },
                },
            ),
        }
    }

    /// What view extraction produces from a targeted dump: the banner
    /// comment followed by the extracted statement block, or nothing when
    /// the dump has no `CREATE VIEW` line.
    pub open spec fn view_create_script_spec(obj: &DependentObject, dump: Seq<char>) -> Option<
        Seq<char>,
    > {
        match Self::view_block_spec(dump, "CREATE VIEW"@) {
            None => None,
            Some(block) => Some("-- VIEW "@ + obj.spec_full_name() + "\n\n"@ + block),
        }
    }

    /// Extract one view's authoritative definition from the raw text of a
    /// targeted dump of that view: the line range from the `CREATE VIEW`
    /// marker through the terminating statement delimiter, prefixed with a
    /// banner comment. Fails, naming the view, when the dump holds no
    /// marker line.
    pub fn get_create_script(dep_obj: &DependentObject, dump: &str) -> (r: Result<
        String,
        ExtractionNotFoundError,
    >)
        ensures
            match r {
                Ok(s) => Self::view_create_script_spec(dep_obj, dump@) == Some(s@),
                Err(e) => {
                    &&& Self::view_create_script_spec(dep_obj, dump@) is None
                    &&& e.identity@ == dep_obj.spec_full_name()
                },
            },
    {
        proof {
            reveal_strlit("CREATE VIEW");
        }
        let chars = str_to_chars(dump);
        let marker = str_to_chars("CREATE VIEW");
        let clen = chars.len();
        match find_marker_from(&chars, &marker, 0) {
            None => Err(ExtractionNotFoundError { identity: dep_obj.get_full_name() }),
            Some(p) => {
                proof {
                    lemma_first_marker_from_properties(dump@, "CREATE VIEW"@, 0);
                }
                let end: usize = match find_char_from(&chars, '\n', p) {
                    None => clen,
                    Some(q) => {
                        proof {
                            lemma_first_char_from_properties(dump@, '\n', p as int);
                        }
                        match find_char_from(&chars, ';', q + 1) {
                            None => clen,
                            Some(sc) => {
                                proof {
                                    lemma_first_char_from_properties(dump@, ';', q + 1);
                                }
                                match find_char_from(&chars, '\n', sc + 1) {
                                    None => clen,
                                    Some(e) => {
                                        proof {
                                            lemma_first_char_from_properties(dump@, '\n', sc + 1);
                                        }
                                        e + 1
                                    },
                                }
                            },
                        }
                    },
                };
                let block = subrange_chars(&chars, p, end);
                let block_str = chars_to_string(&block);
                let mut r = String::from_str("-- VIEW ");
                let full = dep_obj.get_full_name();
                r.append(full.as_str());
                r.append("\n\n");
                r.append(block_str.as_str());
                proof {
                    assert(r@ =~= "-- VIEW "@ + dep_obj.spec_full_name() + "\n\n"@ + dump@.subrange(
                        p as int,
                        end as int,
                    ));
                }
                Ok(r)
            },
        }
    }
    /// The needle that isolates one constraint inside the collapsed dump:
    /// the owning table's qualified name, ` ADD CONSTRAINT `, and the
    /// constraint's name.
    pub open spec fn fk_needle_spec(owner: Seq<char>, cname: Seq<char>) -> Seq<char> {
        owner + " ADD CONSTRAINT "@ + cname
    }

    /// The span of collapsed dump text that the foreign-key pattern match
    /// isolates: from the first `ALTER TABLE` that is followed by the
    /// constraint needle, through the first `;` after the needle.
    pub open spec fn fk_match_spec(t: Seq<char>, owner: Seq<char>, cname: Seq<char>) -> Option<
        Seq<char>,
    > {
        match first_match_from(t, "ALTER TABLE"@, 0) {
            None => None,
            Some(p) => match first_match_from(
                t,
                Self::fk_needle_spec(owner, cname),
                p + "ALTER TABLE"@.len(),
            ) {
                None => None,
                Some(n) => match first_char_from(
                    t,
                    ';',
                    n + Self::fk_needle_spec(owner, cname).len(),
                ) {
                    None => None,
                    Some(sc) => Some(t.subrange(p, sc + 1)),
                },
            },
        }
    }

    /// What foreign-key extraction produces from a structural dump of the
    /// owning table: the banner comment followed by the matched constraint
    /// definition, cleaned of newlines and tabs, with runs of spaces
    /// collapsed, and with a line break inserted before each structural
    /// keyword. Nothing when the pattern does not match.
    pub open spec fn fk_create_script_spec(fk: &ForeignKey, dump: Seq<char>) -> Option<Seq<char>> {
        let t = collapse_spaces_spec(strip_ctl_spec(dump));
        match Self::fk_match_spec(t, fk.spec_parent_table_name(), fk.constraint_name@) {
            None => None,
            Some(m) => Some("-- FK "@ + fk.constraint_name@ + "\n\n"@ + fmt_query_spec(m)),
        }
    }

    /// Extract one foreign key's definition from the raw text of a
    /// structural dump of its owning table: strip newline and tab
    /// characters, collapse runs of spaces, isolate the single
    /// `ALTER TABLE ... ADD CONSTRAINT <name> ... ;` span, and reformat it
    /// for readability. Fails, naming the constraint, when no span matches.
    pub fn get_create_fk_script(fk: &ForeignKey, dump: &str) -> (r: Result<
        String,
        ExtractionNotFoundError,
    >)
        ensures
            match r {
                Ok(s) => Self::fk_create_script_spec(fk, dump@) == Some(s@),
                Err(e) => {
                    &&& Self::fk_create_script_spec(fk, dump@) is None
                    &&& e.identity@ == fk.constraint_name@
                },
            },
    {
        proof {
            reveal_strlit("ALTER TABLE");
            reveal_strlit(" ADD CONSTRAINT ");
        }
        let chars = str_to_chars(dump);
        let stripped = strip_ctl_chars(&chars);
        let collapsed = collapse_spaces_chars(&stripped);
        let ghost t = collapse_spaces_spec(strip_ctl_spec(dump@));
        let clen = collapsed.len();
        let at = str_to_chars("ALTER TABLE");
        let mut needle_str = fk.get_parent_table_name();
        needle_str.append(" ADD CONSTRAINT ");
        needle_str.append(fk.constraint_name.as_str());
        let needle = str_to_chars(needle_str.as_str());
        proof {
            assert(needle@ =~= Self::fk_needle_spec(
                fk.spec_parent_table_name(),
                fk.constraint_name@,
            ));
        }
        match find_from(&collapsed, &at, 0) {
            None => Err(ExtractionNotFoundError { identity: fk.constraint_name.clone() }),
            Some(p) => {
                proof {
                    lemma_first_match_from_properties(t, "ALTER TABLE"@, 0);
                }
                match find_from(&collapsed, &needle, p + at.len()) {
                    None => Err(
                        ExtractionNotFoundError { identity: fk.constraint_name.clone() },
                    ),
                    Some(n) => {
                        proof {
                            lemma_first_match_from_properties(
                                t,
                                needle@,
                                p + "ALTER TABLE"@.len(),
                            );
                        }
                        match find_char_from(&collapsed, ';', n + needle.len()) {
                            None => Err(
                                ExtractionNotFoundError { identity: fk.constraint_name.clone() },
                            ),
                            Some(sc) => {
                                proof {
                                    lemma_first_char_from_properties(
                                        t,
                                        ';',
                                        n + needle@.len(),
                                    );
                                }
                                let span = subrange_chars(&collapsed, p, sc + 1);
                                let span_str = chars_to_string(&span);
                                let formatted = Self::fmt_query(span_str.as_str());
                                let mut r = String::from_str("-- FK ");
                                r.append(fk.constraint_name.as_str());
                                r.append("\n\n");
                                r.append(formatted.as_str());
                                proof {
                                    assert(r@ =~= "-- FK "@ + fk.constraint_name@ + "\n\n"@
                                        + fmt_query_spec(t.subrange(p as int, sc + 1)));
                                }
                                Ok(r)
                            },
                        }
                    },
                }
            },
        }
    }
}

/// One dependent view's slice of the delete section: its banner line and
/// its synthesized DROP statement.
pub open spec fn view_drop_entry_spec(obj: DependentObject) -> Seq<char> {
    "-- VIEW "@ + obj.spec_full_name() + "\n"@ + delete_script_spec(obj.spec_full_name(), "VIEW"@)
        + "\n\n"@
}

/// The delete section for the dependent views, one entry per descriptor in
/// discovery order.
pub open spec fn view_drops_spec(objs: Seq<DependentObject>) -> Seq<char>
    decreases objs.len(),
{
    if objs.len() == 0 {
        Seq::<char>::empty()
    } else {
        view_drops_spec(objs.drop_last()) + view_drop_entry_spec(objs.last())
    }
}

/// One foreign key's slice of the delete section: its banner line and its
/// synthesized DROP CONSTRAINT statement.
pub open spec fn fk_drop_entry_spec(fk: ForeignKey) -> Seq<char> {
    "-- FK "@ + fk.constraint_name@ + "\n"@ + fk_delete_script_spec(fk) + "\n\n"@
}

/// The delete section for the foreign keys, one entry per descriptor in
/// discovery order.
pub open spec fn fk_drops_spec(fks: Seq<ForeignKey>) -> Seq<char>
    decreases fks.len(),
{
    if fks.len() == 0 {
        Seq::<char>::empty()
    } else {
        fk_drops_spec(fks.drop_last()) + fk_drop_entry_spec(fks.last())
    }
}

/// The drop entries of the delete section, one text per descriptor.
pub open spec fn view_drop_entries_spec(objs: Seq<DependentObject>) -> Seq<Seq<char>> {
    objs.map_values(|o: DependentObject| view_drop_entry_spec(o))
}

/// The in-order concatenation of a list of text pieces.
pub open spec fn concat_texts_spec(ts: Seq<Seq<char>>) -> Seq<char>
    decreases ts.len(),
{
    if ts.len() == 0 {
        Seq::<char>::empty()
    } else {
        concat_texts_spec(ts.drop_last()) + ts.last()
    }
}

/// Law: the delete section holds exactly one DROP-view entry per resolved
/// dependent-view descriptor, and the entries stand in the descriptors'
/// discovery order: there are as many entries as descriptors, entry `i` is
/// the drop entry of descriptor `i`, and the section is their in-order
/// concatenation.
pub proof fn lemma_one_drop_per_dependent(objs: Seq<DependentObject>)
    ensures
        view_drop_entries_spec(objs).len() == objs.len(),
        forall|i: int|
            0 <= i < objs.len() ==> view_drop_entries_spec(objs)[i] == view_drop_entry_spec(
                objs[i],
            ),
        view_drops_spec(objs) == concat_texts_spec(view_drop_entries_spec(objs)),
    decreases objs.len(),
{
    if objs.len() == 0 {
        assert(view_drops_spec(objs) =~= concat_texts_spec(view_drop_entries_spec(objs)));
    } else {
        lemma_one_drop_per_dependent(objs.drop_last());
        assert(view_drop_entries_spec(objs).drop_last() =~= view_drop_entries_spec(
            objs.drop_last(),
        ));
        assert(view_drops_spec(objs) =~= concat_texts_spec(view_drop_entries_spec(objs)));
    }
}

/// The reports whose extraction succeeded, in the order they were received;
/// a failed item is omitted and the batch otherwise completes.
pub open spec fn successes_spec(
    reports: Seq<Result<(usize, String), ExtractionNotFoundError>>,
) -> Seq<(usize, String)>
    decreases reports.len(),
{
    if reports.len() == 0 {
        Seq::empty()
    } else {
        match reports.last() {
            Ok(t) => successes_spec(reports.drop_last()).push(t),
            Err(_) => successes_spec(reports.drop_last()),
        }
    }
}

/// The body of a recreate section: each script in order, each followed by a
/// newline.
pub open spec fn scripts_render_spec(items: Seq<(usize, String)>) -> Seq<char>
    decreases items.len(),
{
    if items.len() == 0 {
        Seq::<char>::empty()
    } else {
        scripts_render_spec(items.drop_last()) + items.last().1@ + "\n"@
    }
}

/// A whole recreate section: its banner, then the successful scripts sorted
/// back into discovery order.
pub open spec fn create_scripts_section_spec(
    header: Seq<char>,
    reports: Seq<Result<(usize, String), ExtractionNotFoundError>>,
) -> Seq<char> {
    header + scripts_render_spec(sort_by_index_spec(successes_spec(reports)))
}

/// Law: a recreate section's text is byte-identical for any worker
/// completion order: two gatherings whose successful reports are the same
/// indexed results, received in any two orders, render the same section, as
/// long as no index is reported twice.
pub proof fn lemma_section_order_invariant(
    header: Seq<char>,
    a: Seq<Result<(usize, String), ExtractionNotFoundError>>,
    b: Seq<Result<(usize, String), ExtractionNotFoundError>>,
)
    requires
        distinct_indices(successes_spec(a)),
        successes_spec(a).to_multiset() == successes_spec(b).to_multiset(),
    ensures
        create_scripts_section_spec(header, a) == create_scripts_section_spec(header, b),
{
    lemma_reassembly_order_invariant(successes_spec(a), successes_spec(b));
}

/// Law: a report that reaches the section is exactly a successful report:
/// the gathered successes are the `Ok` reports, in the order received, with
/// every failure omitted.
pub proof fn lemma_failures_omitted(reports: Seq<Result<(usize, String), ExtractionNotFoundError>>)
    ensures
        successes_spec(reports) == reports.filter(
            |r: Result<(usize, String), ExtractionNotFoundError>| r is Ok,
        ).map_values(|r: Result<(usize, String), ExtractionNotFoundError>| r->Ok_0),
    decreases reports.len(),
{
    reveal(Seq::filter);
    let is_ok = |r: Result<(usize, String), ExtractionNotFoundError>| r is Ok;
    let get_ok = |r: Result<(usize, String), ExtractionNotFoundError>| r->Ok_0;
    if reports.len() == 0 {
        assert(successes_spec(reports) =~= reports.filter(is_ok).map_values(get_ok));
    } else {
        lemma_failures_omitted(reports.drop_last());
        assert(successes_spec(reports) =~= reports.filter(is_ok).map_values(get_ok));
    }
}

/// Keep the reports whose extraction succeeded, in the order received.
pub fn collect_successes(
    reports: &Vec<Result<(usize, String), ExtractionNotFoundError>>,
) -> (r: Vec<(usize, String)>)
    ensures
        r@ == successes_spec(reports@),
{
    let mut out: Vec<(usize, String)> = Vec::new();
    let mut k: usize = 0;
    while k < reports.len()
        invariant
            k <= reports@.len(),
            out@ == successes_spec(reports@.subrange(0, k as int)),
        decreases reports@.len() - k,
    {
        match &reports[k] {
            Ok(t) => {
                let ix: usize = t.0;
                let s: String = t.1.clone();
                out.push((ix, s));
            },
            Err(_) => {},
        }
        k = k + 1;
        proof {
            let t = reports@.subrange(0, k as int);
            assert(t.drop_last() =~= reports@.subrange(0, k - 1));
            assert(t.last() == reports@[k - 1]);
        }
    }
    proof {
        assert(reports@.subrange(0, reports@.len() as int) =~= reports@);
    }
    out
}

impl ScriptBuilder {
    /// Append the already sorted scripts, each followed by a newline.
    fn append_sorted_scripts(&mut self, items: &Vec<(usize, String)>)
        ensures
            final(self).file_buffer@ == old(self).file_buffer@ + scripts_render_spec(items@),
    {
        proof {
            assert(self.file_buffer@ + scripts_render_spec(items@.subrange(0, 0)) =~= self
                .file_buffer@);
        }
        let mut k: usize = 0;
        while k < items.len()
            invariant
                k <= items@.len(),
                self.file_buffer@ == old(self).file_buffer@ + scripts_render_spec(
                    items@.subrange(0, k as int),
                ),
            decreases items@.len() - k,
        {
            self.add_buffer_line(items[k].1.as_str());
            self.add_buffer_line("\n");
            k = k + 1;
            proof {
                let t = items@.subrange(0, k as int);
                assert(t.drop_last() =~= items@.subrange(0, k - 1));
                assert(t.last() == items@[k - 1]);
                assert(old(self).file_buffer@ + scripts_render_spec(t) =~= self.file_buffer@);
            }
        }
        proof {
            assert(items@.subrange(0, items@.len() as int) =~= items@);
        }
    }

    /// Append one recreate section: the banner, then the given scripts
    /// sorted back into discovery order, with failed items omitted.
    fn append_create_section(
        &mut self,
        header: &str,
        reports: &Vec<Result<(usize, String), ExtractionNotFoundError>>,
    )
        ensures
            final(self).file_buffer@ == old(self).file_buffer@ + create_scripts_section_spec(
                header@,
                reports@,
            ),
    {
        self.add_buffer_line(header);
        let succ = collect_successes(reports);
        let sorted = sort_by_index(&succ);
        self.append_sorted_scripts(&sorted);
        proof {
            assert(self.file_buffer@ =~= old(self).file_buffer@ + create_scripts_section_spec(
                header@,
                reports@,
            ));
        }
    }

    /// Append the view recreate section: one extracted CREATE script per
    /// successfully processed dependent view, restored to discovery order
    /// however the concurrent workers finished.
    pub fn get_dependent_object_create_scripts(
        &mut self,
        reports: &Vec<Result<(usize, String), ExtractionNotFoundError>>,
    )
        ensures
            final(self).file_buffer@ == old(self).file_buffer@ + create_scripts_section_spec(
                "\n/* --- VIEWS --- */\n\n\n"@,
                reports@,
            ),
    {
        self.append_create_section("\n/* --- VIEWS --- */\n\n\n", reports);
    }

    /// Append the foreign-key recreate section: one extracted ADD CONSTRAINT
    /// script per successfully processed foreign key, restored to discovery
    /// order however the concurrent workers finished.
    pub fn get_fk_create_scripts(
        &mut self,
        reports: &Vec<Result<(usize, String), ExtractionNotFoundError>>,
    )
        ensures
            final(self).file_buffer@ == old(self).file_buffer@ + create_scripts_section_spec(
                "\n/* --- FOREIGN KEYS --- */\n\n\n"@,
                reports@,
            ),
    {
        self.append_create_section("\n/* --- FOREIGN KEYS --- */\n\n\n", reports);
    }

    /// Append the delete-section entries for the dependent views: one
    /// banner line and one DROP statement per descriptor, in discovery
    /// order.
    pub fn append_view_drop_scripts(&mut self, objs: &Vec<DependentObject>)
        ensures
            final(self).file_buffer@ == old(self).file_buffer@ + view_drops_spec(objs@),
    {
        proof {
            assert(self.file_buffer@ + view_drops_spec(objs@.subrange(0, 0)) =~= self.file_buffer@);
        }
        let mut k: usize = 0;
        while k < objs.len()
            invariant
                k <= objs@.len(),
                self.file_buffer@ == old(self).file_buffer@ + view_drops_spec(
                    objs@.subrange(0, k as int),
                ),
            decreases objs@.len() - k,
        {
            let obj_name = objs[k].get_full_name();
            self.add_buffer_line("-- VIEW ");
            self.add_buffer_line(obj_name.as_str());
            self.add_buffer_line("\n");
            let script = self.get_delete_script(obj_name, String::from_str("VIEW"));
            self.add_buffer_line(script.as_str());
            self.add_buffer_line("\n\n");
            k = k + 1;
            proof {
                let t = objs@.subrange(0, k as int);
                assert(t.drop_last() =~= objs@.subrange(0, k - 1));
                assert(t.last() == objs@[k - 1]);
                assert(old(self).file_buffer@ + view_drops_spec(t) =~= self.file_buffer@);
            }
        }
        proof {
            assert(objs@.subrange(0, objs@.len() as int) =~= objs@);
        }
    }

    /// Append the delete-section entries for the foreign keys: one banner
    /// line and one DROP CONSTRAINT statement per descriptor, in discovery
    /// order.
    pub fn append_fk_drop_scripts(&mut self, fks: &Vec<ForeignKey>)
        ensures
            final(self).file_buffer@ == old(self).file_buffer@ + fk_drops_spec(fks@),
    {
        proof {
            assert(self.file_buffer@ + fk_drops_spec(fks@.subrange(0, 0)) =~= self.file_buffer@);
        }
        let mut k: usize = 0;
        while k < fks.len()
            invariant
                k <= fks@.len(),
                self.file_buffer@ == old(self).file_buffer@ + fk_drops_spec(
                    fks@.subrange(0, k as int),
                ),
            decreases fks@.len() - k,
        {
            self.add_buffer_line("-- FK ");
            self.add_buffer_line(fks[k].constraint_name.as_str());
            self.add_buffer_line("\n");
            let script = self.get_fk_delete_script(&fks[k]);
            self.add_buffer_line(script.as_str());
            self.add_buffer_line("\n\n");
            k = k + 1;
            proof {
                let t = fks@.subrange(0, k as int);
                assert(t.drop_last() =~= fks@.subrange(0, k - 1));
                assert(t.last() == fks@[k - 1]);
                assert(old(self).file_buffer@ + fk_drops_spec(t) =~= self.file_buffer@);
            }
        }
        proof {
            assert(fks@.subrange(0, fks@.len() as int) =~= fks@);
        }
    }
}

/// The complete migration script for a target table, in the fixed phase
/// order: the delete header, one DROP per dependent view, one DROP
/// CONSTRAINT per foreign key, the marker where the caller places the
/// actual table alteration, then the recreate sections for views and
/// foreign keys, each restored to discovery order.
pub open spec fn migration_script_spec(
    objs: Seq<DependentObject>,
    fks: Seq<ForeignKey>,
    view_reports: Seq<Result<(usize, String), ExtractionNotFoundError>>,
    fk_reports: Seq<Result<(usize, String), ExtractionNotFoundError>>,
) -> Seq<char> {
    "-- DELETE DEPENDENTS\n\n"@ + view_drops_spec(objs) + fk_drops_spec(fks)
        + "\n-- ADD BACK DEPENDENTS\n\n"@ + create_scripts_section_spec(
        "\n/* --- VIEWS --- */\n\n\n"@,
        view_reports,
    ) + "\n"@ + create_scripts_section_spec("\n/* --- FOREIGN KEYS --- */\n\n\n"@, fk_reports)
}

/// Assemble the whole migration script from the resolved descriptors and
/// the workers' extraction reports.
pub fn build_migration_script(
    objs: &Vec<DependentObject>,
    fks: &Vec<ForeignKey>,
    view_reports: &Vec<Result<(usize, String), ExtractionNotFoundError>>,
    fk_reports: &Vec<Result<(usize, String), ExtractionNotFoundError>>,
) -> (r: ScriptBuilder)
    ensures
        r.file_buffer@ == migration_script_spec(objs@, fks@, view_reports@, fk_reports@),
{
    let mut sb = ScriptBuilder::new();
    sb.add_buffer_line("-- DELETE DEPENDENTS\n\n");
    sb.append_view_drop_scripts(objs);
    sb.append_fk_drop_scripts(fks);
    sb.add_buffer_line("\n-- ADD BACK DEPENDENTS\n\n");
    sb.get_dependent_object_create_scripts(view_reports);
    sb.add_buffer_line("\n");
    sb.get_fk_create_scripts(fk_reports);
    proof {
        assert(sb.file_buffer@ =~= migration_script_spec(
            objs@,
            fks@,
            view_reports@,
            fk_reports@,
        ));
    }
    sb
}

/// Law: for a target with no dependent views and no foreign keys — and so
/// no extraction reports — the assembled script holds only the fixed
/// header, marker and section banners: no DROP and no CREATE statement.
pub proof fn lemma_empty_inputs_script()
    ensures
        migration_script_spec(
            Seq::<DependentObject>::empty(),
            Seq::<ForeignKey>::empty(),
            Seq::<Result<(usize, String), ExtractionNotFoundError>>::empty(),
            Seq::<Result<(usize, String), ExtractionNotFoundError>>::empty(),
        ) == "-- DELETE DEPENDENTS\n\n"@ + "\n-- ADD BACK DEPENDENTS\n\n"@
            + "\n/* --- VIEWS --- */\n\n\n"@ + "\n"@ + "\n/* --- FOREIGN KEYS --- */\n\n\n"@,
{
    let no_reports = Seq::<Result<(usize, String), ExtractionNotFoundError>>::empty();
    assert(successes_spec(no_reports) =~= Seq::<(usize, String)>::empty());
    assert(migration_script_spec(
        Seq::<DependentObject>::empty(),
        Seq::<ForeignKey>::empty(),
        no_reports,
        no_reports,
    ) =~= "-- DELETE DEPENDENTS\n\n"@ + "\n-- ADD BACK DEPENDENTS\n\n"@
        + "\n/* --- VIEWS --- */\n\n\n"@ + "\n"@ + "\n/* --- FOREIGN KEYS --- */\n\n\n"@);
}

} // verus!
