//! Schema migration rules of the ontology store that read table definitions.

use vstd::prelude::*;
use crate::documents::{spec_trim, trim};
use crate::payload::{str_to_uppercase, unicode_uppercase};
use crate::text::{chars_contain, chars_of, concat2, contains_seq, string_of_range};
use crate::ttl::strs;

verus! {

/// A line without the `\r` of a `\r\n` ending.
pub open spec fn strip_cr(l: Seq<char>) -> Seq<char> {
    if l.len() > 0 && l.last() == '\r' {
        l.drop_last()
    } else {
        l
    }
}

/// The lines of `s` (as `str::lines` cuts them), the current one so far being
/// `cur`: lines end at `\n` (a `\r` before it is dropped); the text after the
/// last `\n` is a line when it is not empty.
pub open spec fn line_scan(s: Seq<char>, cur: Seq<char>) -> Seq<Seq<char>>
    decreases s.len(),
{
    if s.len() == 0 {
        if cur.len() > 0 {
            seq![cur]
        } else {
            Seq::empty()
        }
    } else if s[0] == '\n' {
        seq![strip_cr(cur)] + line_scan(s.drop_first(), Seq::empty())
    } else {
        line_scan(s.drop_first(), cur.push(s[0]))
    }
}

pub open spec fn spec_lines(s: Seq<char>) -> Seq<Seq<char>> {
    line_scan(s, Seq::empty())
}

/// The lines of a text.
pub fn text_lines(s: &str) -> (r: Vec<String>)
    ensures
        strs(r@) == spec_lines(s@),
{
    let cs = chars_of(s);
    let n = cs.len();
    let mut out: Vec<String> = Vec::new();
    let mut from: usize = 0;
    let mut i: usize = 0;
    assert(s@.skip(0) =~= s@);
    assert(s@.subrange(0, 0) =~= Seq::<char>::empty());
    assert(strs(out@) =~= Seq::<Seq<char>>::empty());
    while i < n
        invariant
            cs@ == s@,
            n == s@.len(),
            from <= i <= n,
            strs(out@) + line_scan(s@.skip(i as int), s@.subrange(from as int, i as int))
                == spec_lines(s@),
        decreases n - i,
    {
        let ghost before = strs(out@);
        let ghost cur = s@.subrange(from as int, i as int);
        assert(s@.skip(i as int)[0] == s@[i as int]);
        assert(s@.skip(i as int).drop_first() =~= s@.skip(i + 1));
        if cs[i] == '\n' {
            let end = if i > from && cs[i - 1] == '\r' {
                i - 1
            } else {
                i
            };
            let line = string_of_range(cs.as_slice(), from, end);
            proof {
                if i > from && cs@[i - 1] == '\r' {
                    assert(line@ =~= cur.drop_last());
                } else {
                    assert(line@ =~= cur);
                }
                assert(line@ == strip_cr(cur));
            }
            out.push(line);
            assert(strs(out@) =~= before.push(strip_cr(cur)));
            assert(before.push(strip_cr(cur)) + line_scan(s@.skip(i + 1), Seq::empty()) =~= before + (
            seq![strip_cr(cur)] + line_scan(s@.skip(i + 1), Seq::empty())));
            assert(s@.subrange(i + 1, i + 1) =~= Seq::<char>::empty());
            from = i + 1;
        } else {
            assert(cur.push(s@[i as int]) =~= s@.subrange(from as int, i + 1));
        }
        i = i + 1;
    }
    let ghost before = strs(out@);
    assert(s@.skip(n as int) =~= Seq::<char>::empty());
    if from < n {
        let line = string_of_range(cs.as_slice(), from, n);
        out.push(line);
        assert(strs(out@) =~= before + seq![s@.subrange(from as int, n as int)]);
    } else {
        assert(s@.subrange(from as int, n as int) =~= Seq::<char>::empty());
        assert(strs(out@) =~= before + Seq::<Seq<char>>::empty());
    }
    out
}

/// A column line of a table definition that declares `api_name` unique on
/// its own: upper-cased, it names API_NAME and UNIQUE and is not a table
/// constraint `UNIQUE(...)`.
pub open spec fn is_column_unique_line(line: Seq<char>) -> bool {
    let up = unicode_uppercase(spec_trim(line));
    &&& !(up.len() >= 7 && up.take(7) == "UNIQUE("@)
    &&& contains_seq(up, "API_NAME"@)
    &&& contains_seq(up, "UNIQUE"@)
}

fn column_unique_line(line: &str) -> (r: bool)
    ensures
        r == is_column_unique_line(line@),
{
    let t = trim(line);
    let up = str_to_uppercase(t.as_str());
    let uc = chars_of(up.as_str());
    let is_table_constraint = if uc.len() >= 7 {
        let head = string_of_range(uc.as_slice(), 0, 7);
        assert(head@ == up@.take(7));
        crate::text::str_eq(head.as_str(), "UNIQUE(")
    } else {
        false
    };
    if is_table_constraint {
        return false;
    }
    let api = chars_of("API_NAME");
    let uniq = chars_of("UNIQUE");
    chars_contain(uc.as_slice(), api.as_slice()) && chars_contain(uc.as_slice(), uniq.as_slice())
}

/// Whether a table definition still declares `api_name` unique on its own
/// (the legacy global constraint that a migration rebuilds the table to drop).
pub fn ddl_has_column_level_unique(ddl: &str) -> (r: bool)
    ensures
        r == exists|i: int| 0 <= i < spec_lines(ddl@).len() && is_column_unique_line(
            #[trigger] spec_lines(ddl@)[i],
        ),
{
    let lines = text_lines(ddl);
    let ghost lv = spec_lines(ddl@);
    let n = lines.len();
    let mut i: usize = 0;
    while i < n
        invariant
            n == lines@.len(),
            lv == spec_lines(ddl@),
            strs(lines@) == lv,
            i <= n,
            forall|j: int| 0 <= j < i ==> !is_column_unique_line(#[trigger] lv[j]),
        decreases n - i,
    {
        assert(lv[i as int] == lines@[i as int]@);
        if column_unique_line(lines[i].as_str()) {
            return true;
        }
        i = i + 1;
    }
    false
}

// ════════════════════════════════════════════════════════════════
// Adding missing columns
// ════════════════════════════════════════════════════════════════

/// The views of `(column, declaration)` pairs.
pub open spec fn pairs_v(cols: Seq<(String, String)>) -> Seq<(Seq<char>, Seq<char>)> {
    cols.map_values(|c: (String, String)| (c.0@, c.1@))
}

/// The columns of `wanted` that a table with the columns `existing` lacks, in
/// order; a column is added once, so a later duplicate counts as present.
pub open spec fn columns_to_add(existing: Seq<Seq<char>>, wanted: Seq<(Seq<char>, Seq<char>)>) -> Seq<
    (Seq<char>, Seq<char>),
>
    decreases wanted.len(),
{
    if wanted.len() == 0 {
        Seq::empty()
    } else if existing.contains(wanted[0].0) {
        columns_to_add(existing, wanted.drop_first())
    } else {
        seq![wanted[0]] + columns_to_add(existing.push(wanted[0].0), wanted.drop_first())
    }
}

/// The columns to add to a table, given the names of the columns it has.
pub fn missing_columns(existing: &Vec<String>, wanted: &Vec<(String, String)>) -> (r: Vec<(String, String)>)
    ensures
        pairs_v(r@) == columns_to_add(strs(existing@), pairs_v(wanted@)),
{
    let ghost wv = pairs_v(wanted@);
    let mut known: Vec<String> = existing.clone();
    proof {
        assert(strs(known@) =~= strs(existing@));
    }
    let mut out: Vec<(String, String)> = Vec::new();
    let n = wanted.len();
    let mut i: usize = 0;
    assert(wv.skip(0) =~= wv);
    assert(pairs_v(out@) =~= Seq::<(Seq<char>, Seq<char>)>::empty());
    while i < n
        invariant
            n == wanted@.len(),
            wv == pairs_v(wanted@),
            i <= n,
            pairs_v(out@) + columns_to_add(strs(known@), wv.skip(i as int)) == columns_to_add(
                strs(existing@),
                wv,
            ),
        decreases n - i,
    {
        let ghost before = pairs_v(out@);
        let ghost kv = strs(known@);
        assert(wv.skip(i as int)[0] == wv[i as int]);
        assert(wv.skip(i as int).drop_first() =~= wv.skip(i + 1));
        let name = wanted[i].0.clone();
        let decl = wanted[i].1.clone();
        if !crate::store::contains_string(&known, &name) {
            known.push(name.clone());
            out.push((name, decl));
            proof {
                assert(strs(known@) =~= kv.push(wv[i as int].0));
                assert(pairs_v(out@) =~= before.push(wv[i as int]));
                assert(before.push(wv[i as int]) + columns_to_add(strs(known@), wv.skip(i + 1))
                    =~= before + (seq![wv[i as int]] + columns_to_add(strs(known@), wv.skip(i + 1))));
            }
        }
        i = i + 1;
    }
    assert(wv.skip(n as int) =~= Seq::<(Seq<char>, Seq<char>)>::empty());
    assert(pairs_v(out@) + Seq::<(Seq<char>, Seq<char>)>::empty() =~= pairs_v(out@));
    out
}

/// The statement that adds a column to a table.
pub fn add_column_sql(table: &str, column: &str, decl: &str) -> (r: String)
    ensures
        r@ == "ALTER TABLE "@ + table@ + " ADD COLUMN "@ + column@ + " "@ + decl@ + ";"@,
{
    let mut r = concat2("ALTER TABLE ", table);
    r.append(" ADD COLUMN ");
    r.append(column);
    r.append(" ");
    r.append(decl);
    r.append(";");
    r
}

/// The statement that lists a table's columns.
pub fn table_info_sql(table: &str) -> (r: String)
    ensures
        r@ == "PRAGMA table_info("@ + table@ + ")"@,
{
    let mut r = concat2("PRAGMA table_info(", table);
    r.append(")");
    r
}

// ════════════════════════════════════════════════════════════════
// Rebuilding a table without its legacy constraint
// ════════════════════════════════════════════════════════════════

/// The statements that rebuild a table: create the new table, copy the rows
/// over, drop the old table, give the new one its name.
pub struct TableRebuild {
    pub create: String,
    pub copy: String,
    pub drop: String,
    pub rename: String,
}

pub open spec fn datasets_ddl() -> Seq<char> {
    "CREATE TABLE datasets__migrate (
    id                        TEXT PRIMARY KEY,
    ontology_api_name         TEXT NOT NULL,
    api_name                  TEXT NOT NULL,
    display_name              TEXT NOT NULL DEFAULT '',
    storage_location          TEXT NOT NULL DEFAULT '',
    partition_config          TEXT,
    source_dataset_api_name   TEXT,
    data_source_api_name      TEXT,
    kind                      TEXT NOT NULL DEFAULT 'MANAGED' CHECK (kind IN ('MANAGED','VIRTUAL')),
    is_view                   INTEGER NOT NULL DEFAULT 0,
    created_at                INTEGER NOT NULL,
    updated_at                INTEGER NOT NULL,
    UNIQUE(ontology_api_name, api_name),
    FOREIGN KEY (ontology_api_name) REFERENCES ontologies(api_name) ON DELETE CASCADE
);"@
}

pub open spec fn datasets_copy() -> Seq<char> {
    "INSERT INTO datasets__migrate (id, ontology_api_name, api_name, display_name, storage_location, partition_config, source_dataset_api_name, data_source_api_name, kind, is_view, created_at, updated_at) SELECT id, ontology_api_name, api_name, display_name, storage_location, partition_config, source_dataset_api_name, data_source_api_name, kind, is_view, created_at, updated_at FROM datasets"@
}

pub open spec fn data_sources_ddl() -> Seq<char> {
    "CREATE TABLE data_sources__migrate (
    id                    TEXT PRIMARY KEY,
    ontology_api_name     TEXT NOT NULL,
    api_name              TEXT NOT NULL,
    display_name          TEXT NOT NULL,
    description           TEXT NOT NULL DEFAULT '',
    connector_type        TEXT NOT NULL,
    connector_config      TEXT NOT NULL DEFAULT '{}',
    credential_id         TEXT,
    created_at            INTEGER NOT NULL,
    updated_at            INTEGER NOT NULL,
    UNIQUE(ontology_api_name, api_name),
    FOREIGN KEY (ontology_api_name) REFERENCES ontologies(api_name) ON DELETE CASCADE
);"@
}

pub open spec fn data_sources_copy() -> Seq<char> {
    "INSERT INTO data_sources__migrate (id, ontology_api_name, api_name, display_name, description, connector_type, connector_config, credential_id, created_at, updated_at) SELECT id, ontology_api_name, api_name, display_name, description, connector_type, connector_config, credential_id, created_at, updated_at FROM data_sources"@
}

/// The rebuild of `datasets` or `data_sources` (the two tables whose
/// `api_name` was once unique across ontologies); none for another table.
pub open spec fn spec_table_rebuild(table: Seq<char>) -> Option<(Seq<char>, Seq<char>, Seq<char>, Seq<char>)> {
    if table == "datasets"@ {
        Some(
            (
                datasets_ddl(),
                datasets_copy(),
                "DROP TABLE datasets;"@,
                "ALTER TABLE datasets__migrate RENAME TO datasets;"@,
            ),
        )
    } else if table == "data_sources"@ {
        Some(
            (
                data_sources_ddl(),
                data_sources_copy(),
                "DROP TABLE data_sources;"@,
                "ALTER TABLE data_sources__migrate RENAME TO data_sources;"@,
            ),
        )
    } else {
        None
    }
}

/// The statements that rebuild a table without its column-level `api_name`
/// unique constraint, keeping the per-ontology one.
pub fn table_rebuild(table: &str) -> (r: Option<TableRebuild>)
    ensures
        match r {
            Some(t) => spec_table_rebuild(table@) == Some((t.create@, t.copy@, t.drop@, t.rename@)),
            None => spec_table_rebuild(table@) is None,
        },
{
    if crate::text::str_eq(table, "datasets") {
        Some(
            TableRebuild {
                create: "CREATE TABLE datasets__migrate (
    id                        TEXT PRIMARY KEY,
    ontology_api_name         TEXT NOT NULL,
    api_name                  TEXT NOT NULL,
    display_name              TEXT NOT NULL DEFAULT '',
    storage_location          TEXT NOT NULL DEFAULT '',
    partition_config          TEXT,
    source_dataset_api_name   TEXT,
    data_source_api_name      TEXT,
    kind                      TEXT NOT NULL DEFAULT 'MANAGED' CHECK (kind IN ('MANAGED','VIRTUAL')),
    is_view                   INTEGER NOT NULL DEFAULT 0,
    created_at                INTEGER NOT NULL,
    updated_at                INTEGER NOT NULL,
    UNIQUE(ontology_api_name, api_name),
    FOREIGN KEY (ontology_api_name) REFERENCES ontologies(api_name) ON DELETE CASCADE
);".to_owned(),
                copy: "INSERT INTO datasets__migrate (id, ontology_api_name, api_name, display_name, storage_location, partition_config, source_dataset_api_name, data_source_api_name, kind, is_view, created_at, updated_at) SELECT id, ontology_api_name, api_name, display_name, storage_location, partition_config, source_dataset_api_name, data_source_api_name, kind, is_view, created_at, updated_at FROM datasets".to_owned(),
                drop: "DROP TABLE datasets;".to_owned(),
                rename: "ALTER TABLE datasets__migrate RENAME TO datasets;".to_owned(),
            },
        )
    } else if crate::text::str_eq(table, "data_sources") {
        Some(
            TableRebuild {
                create: "CREATE TABLE data_sources__migrate (
    id                    TEXT PRIMARY KEY,
    ontology_api_name     TEXT NOT NULL,
    api_name              TEXT NOT NULL,
    display_name          TEXT NOT NULL,
    description           TEXT NOT NULL DEFAULT '',
    connector_type        TEXT NOT NULL,
    connector_config      TEXT NOT NULL DEFAULT '{}',
    credential_id         TEXT,
    created_at            INTEGER NOT NULL,
    updated_at            INTEGER NOT NULL,
    UNIQUE(ontology_api_name, api_name),
    FOREIGN KEY (ontology_api_name) REFERENCES ontologies(api_name) ON DELETE CASCADE
);".to_owned(),
                copy: "INSERT INTO data_sources__migrate (id, ontology_api_name, api_name, display_name, description, connector_type, connector_config, credential_id, created_at, updated_at) SELECT id, ontology_api_name, api_name, display_name, description, connector_type, connector_config, credential_id, created_at, updated_at FROM data_sources".to_owned(),
                drop: "DROP TABLE data_sources;".to_owned(),
                rename: "ALTER TABLE data_sources__migrate RENAME TO data_sources;".to_owned(),
            },
        )
    } else {
        None
    }
}

} // verus!
