//! `query`: SQL over the session event log, run by the `duckdb` command line.

use crate::io_error::ErrorKind;
use crate::model::meta::texts;
use crate::text::{comma_parts, same_text, trim, trimmed};
use vstd::prelude::*;

verus! {

/// A single-quoted SQL string literal: embedded quotes are doubled.
pub open spec fn quoted(s: Seq<char>) -> Seq<char> {
    seq!['\''] + doubled(s) + seq!['\'']
}

/// Every quote twice.
pub open spec fn doubled(s: Seq<char>) -> Seq<char>
    decreases s.len(),
{
    if s.len() == 0 {
        Seq::empty()
    } else if s.last() == '\'' {
        doubled(s.drop_last()) + seq!['\'', '\'']
    } else {
        doubled(s.drop_last()).push(s.last())
    }
}

/// Single-quoted SQL string literal, escaping embedded quotes by doubling.
/// Backslashes are literal in DuckDB single-quoted strings, so Windows paths
/// need no extra handling.
pub fn sql_string_literal(s: &str) -> (literal: String)
    ensures
        literal@ == quoted(s@),
{
    let mut literal = String::new();
    literal.push('\'');
    let n: usize = s.unicode_len();
    let mut i: usize = 0;
    assert(s@.take(0) =~= Seq::empty());
    assert(literal@ =~= seq!['\''] + doubled(s@.take(0)));
    while i < n
        invariant
            i <= n,
            n == s@.len(),
            literal@ == seq!['\''] + doubled(s@.take(i as int)),
        decreases n - i,
    {
        let c: char = s.get_char(i);
        assert(s@.take(i + 1).drop_last() =~= s@.take(i as int));
        assert(s@.take(i + 1).last() == c);
        if c == '\'' {
            literal.push('\'');
        }
        literal.push(c);
        i = i + 1;
        assert(literal@ =~= seq!['\''] + doubled(s@.take(i as int)));
    }
    assert(s@.take(i as int) =~= s@);
    literal.push('\'');
    assert(literal@ =~= quoted(s@));
    literal
}

/// What the quotes of a literal's inside stand for, read from the left.
pub open spec fn undoubled(s: Seq<char>) -> Option<Seq<char>>
    decreases s.len(),
{
    if s.len() == 0 {
        Some(Seq::empty())
    } else if s.last() != '\'' {
        match undoubled(s.drop_last()) {
            Some(head) => Some(head.push(s.last())),
            None => None,
        }
    } else if s.len() >= 2 && s[s.len() - 2] == '\'' {
        match undoubled(s.drop_last().drop_last()) {
            Some(head) => Some(head.push('\'')),
            None => None,
        }
    } else {
        None
    }
}

/// A literal stands for exactly the text it was made of: no text can end its own
/// literal early.
pub proof fn law_literal_round_trip(s: Seq<char>)
    ensures
        undoubled(doubled(s)) == Some(s),
    decreases s.len(),
{
    if s.len() == 0 {
        assert(s =~= Seq::empty());
    } else {
        law_literal_round_trip(s.drop_last());
        let head = doubled(s.drop_last());
        if s.last() == '\'' {
            let all = head + seq!['\'', '\''];
            assert(all.drop_last().drop_last() =~= head);
            assert(s.drop_last().push('\'') =~= s);
        } else {
            assert(head.push(s.last()).drop_last() =~= head);
            assert(s.drop_last().push(s.last()) =~= s);
        }
    }
}

/// The view's projected columns: each JSONL line is read as one JSON value, then
/// the envelope fields are pulled out with typed casts. `TRY_CAST` turns a valid
/// line with an unexpected field value into a NULL in that column, not an error.
pub const VIEW_PROJECTION: &'static str = "TRY_CAST(j->>'v' AS INT) AS v, j->>'id' AS id, TRY_CAST(j->>'ts' AS TIMESTAMP) AS ts, j->>'kind' AS kind, j->>'namespace' AS namespace, j->>'session' AS session, j->>'run_id' AS run_id, TRY_CAST(j->>'gen' AS UBIGINT) AS gen, j->>'writer' AS writer, TRY_CAST(j->>'seq' AS UBIGINT) AS seq, j->>'source' AS source, j->>'block_id' AS block_id, j->>'parent_id' AS parent_id, j->'data' AS data, j->'data_ref' AS data_ref";

/// The name of a segment of an event log: something with the extension `jsonl`.
pub open spec fn is_event_segment_name(name: Seq<char>) -> bool {
    name.len() > 6 && name.skip(name.len() - 6) == ".jsonl"@
}

/// Whether a file of this name is a segment of an event log.
pub fn is_event_segment(name: &str) -> (yes: bool)
    ensures
        yes == is_event_segment_name(name@),
{
    let n: usize = name.unicode_len();
    if n <= 6 {
        return false;
    }
    let end = name.substring_char(n - 6, n);
    assert(end@ =~= name@.skip(n - 6));
    same_text(end, ".jsonl")
}

/// Literals with commas between them.
pub open spec fn literal_list(paths: Seq<Seq<char>>) -> Seq<char>
    decreases paths.len(),
{
    if paths.len() == 0 {
        Seq::empty()
    } else if paths.len() == 1 {
        quoted(paths[0])
    } else {
        literal_list(paths.drop_last()) + ", "@ + quoted(paths.last())
    }
}

/// The statement that defines the view over segments. With no segments in scope it
/// is an empty view with the same column types, so that a count gives 0.
pub open spec fn view_sql(paths: Seq<Seq<char>>) -> Seq<char> {
    "CREATE VIEW events AS SELECT "@ + VIEW_PROJECTION@ + (if paths.len() == 0 {
        " FROM (SELECT NULL::JSON AS j) WHERE false;"@
    } else {
        " FROM read_json(["@ + literal_list(paths)
            + "], format='newline_delimited', records=false, ignore_errors=true) t(j) WHERE j IS NOT NULL;"@
    })
}

/// The `CREATE VIEW events` preamble over the discovered segments.
///
/// `ignore_errors=true` lets a torn or corrupt line come back as a NULL row
/// instead of aborting the read; `WHERE j IS NOT NULL` then drops those rows so
/// a bad line neither fails the query nor inflates a count.
pub fn build_view_sql(segments: &Vec<String>) -> (sql: String)
    ensures
        sql@ == view_sql(texts(segments@)),
{
    let ghost paths = texts(segments@);
    let mut sql = String::new();
    sql.append("CREATE VIEW events AS SELECT ");
    sql.append(VIEW_PROJECTION);
    if segments.len() == 0 {
        sql.append(" FROM (SELECT NULL::JSON AS j) WHERE false;");
        assert(sql@ =~= view_sql(paths));
        return sql;
    }
    sql.append(" FROM read_json([");
    let ghost head = sql@;
    let mut i: usize = 0;
    assert(paths.take(0) =~= Seq::empty());
    assert(sql@ =~= head + literal_list(paths.take(0)));
    while i < segments.len()
        invariant
            i <= segments@.len(),
            paths == texts(segments@),
            sql@ == head + literal_list(paths.take(i as int)),
        decreases segments@.len() - i,
    {
        proof {
            assert(paths.take(i + 1).drop_last() =~= paths.take(i as int));
            assert(paths.take(i + 1).last() == segments@[i as int]@);
        }
        if i > 0 {
            sql.append(", ");
        }
        sql.append(sql_string_literal(segments[i].as_str()).as_str());
        i = i + 1;
        assert(sql@ =~= head + literal_list(paths.take(i as int)));
    }
    assert(paths.take(i as int) =~= paths);
    sql.append(
        "], format='newline_delimited', records=false, ignore_errors=true) t(j) WHERE j IS NOT NULL;",
    );
    assert(sql@ =~= view_sql(paths));
    sql
}

/// The parts that hold something, without white space at their ends.
pub open spec fn named_parts(parts: Seq<Seq<char>>) -> Seq<Seq<char>>
    decreases parts.len(),
{
    if parts.len() == 0 {
        Seq::empty()
    } else {
        let head = named_parts(parts.drop_last());
        if trimmed(parts.last()).len() == 0 {
            head
        } else {
            head.push(trimmed(parts.last()))
        }
    }
}

fn push_namespace(names: &mut Vec<String>, part: &str)
    ensures
        texts(final(names)@) == (if trimmed(part@).len() == 0 {
            texts(old(names)@)
        } else {
            texts(old(names)@).push(trimmed(part@))
        }),
{
    let name = trim(part);
    if name.unicode_len() > 0 {
        let ghost before = names@;
        names.push(name.to_owned());
        assert(texts(names@) =~= texts(before).push(name@));
    }
}

/// Splits a `--namespace a,b,c` spec into names. Empty parts are skipped; no spec
/// means all namespaces, which is no name.
pub fn parse_namespaces(spec: Option<&str>) -> (names: Vec<String>)
    ensures
        texts(names@) == (match spec {
            Some(text) => named_parts(comma_parts(text@)),
            None => Seq::empty(),
        }),
{
    let mut names: Vec<String> = Vec::new();
    assert(texts(names@) =~= Seq::empty());
    let text = match spec {
        Some(text) => text,
        None => return names,
    };
    let ghost all = text@;
    let n: usize = text.unicode_len();
    let mut start: usize = 0;
    let mut i: usize = 0;
    proof {
        assert(all.take(0) =~= Seq::empty());
        assert(comma_parts(all.take(0)).drop_last() =~= Seq::empty());
        assert(all.subrange(0, 0) =~= Seq::empty());
    }
    while i < n
        invariant
            start <= i <= n,
            n == text@.len(),
            all == text@,
            comma_parts(all.take(i as int)).len() >= 1,
            comma_parts(all.take(i as int)).last() == all.subrange(start as int, i as int),
            texts(names@) == named_parts(comma_parts(all.take(i as int)).drop_last()),
        decreases n - i,
    {
        let c: char = text.get_char(i);
        let ghost head = comma_parts(all.take(i as int));
        let ghost part = all.subrange(start as int, i as int);
        proof {
            assert(all.take(i + 1).drop_last() =~= all.take(i as int));
            assert(all.take(i + 1).last() == c);
        }
        if c == ',' {
            push_namespace(&mut names, text.substring_char(start, i));
            proof {
                let next = comma_parts(all.take(i + 1));
                assert(next.drop_last() =~= head);
                assert(all.subrange(i + 1, i + 1) =~= Seq::empty());
            }
            start = i + 1;
        } else {
            proof {
                let next = comma_parts(all.take(i + 1));
                assert(next.drop_last() =~= head.drop_last());
                assert(all.subrange(start as int, i + 1) =~= part.push(c));
            }
        }
        i = i + 1;
    }
    push_namespace(&mut names, text.substring_char(start, n));
    assert(all.take(n as int) =~= all);
    names
}

/// Where the SQL comes from.
#[derive(Clone, Debug, PartialEq, Eq)]
pub enum SqlSource {
    Inline(String),
    File(String),
}

/// Where the SQL comes from: the inline argument or a file, exactly one of them.
pub fn resolve_sql(sql: Option<String>, file: Option<String>) -> (source: Result<
    SqlSource,
    &'static str,
>)
    ensures
        match (sql, file) {
            (Some(s), None) => source matches Ok(SqlSource::Inline(text)) && text@ == s@,
            (None, Some(f)) => source matches Ok(SqlSource::File(path)) && path@ == f@,
            (Some(_), Some(_)) => source matches Err(reason) && reason@
                == "provide either inline SQL or --file, not both"@,
            (None, None) => source matches Err(reason) && reason@ == "no SQL provided"@,
        },
{
    match (sql, file) {
        (Some(sql), None) => Ok(SqlSource::Inline(sql)),
        (None, Some(file)) => Ok(SqlSource::File(file)),
        (Some(_), Some(_)) => Err("provide either inline SQL or --file, not both"),
        (None, None) => Err("no SQL provided"),
    }
}

/// What to do about a query.
#[derive(Clone, Copy, Debug, PartialEq, Eq, Structural)]
pub enum QueryAction {
    /// Print the version and exit.
    Version,
    /// Open a shell with the view registered.
    Shell,
    /// Run the SQL.
    Run,
    /// There is nothing to run.
    Nothing,
}

/// What `query` is asked for.
#[derive(Clone, Debug, Default, PartialEq, Eq)]
pub struct QueryOptions {
    /// Inline SQL to run against the `events` view.
    pub sql: Option<String>,
    /// The file to read SQL from instead.
    pub file: Option<String>,
    /// Comma-separated namespaces to scope the view; all of them without it.
    pub namespace: Option<String>,
    /// Open a DuckDB shell with the view registered.
    pub shell: bool,
    /// Print the DuckDB version and exit.
    pub version: bool,
}

/// What a query's options ask for.
pub fn query_action(options: &QueryOptions) -> (action: QueryAction)
    ensures
        action == (if options.version {
            QueryAction::Version
        } else if options.shell {
            QueryAction::Shell
        } else if options.sql is Some || options.file is Some {
            QueryAction::Run
        } else {
            QueryAction::Nothing
        }),
{
    if options.version {
        QueryAction::Version
    } else if options.shell {
        QueryAction::Shell
    } else if options.sql.is_some() || options.file.is_some() {
        QueryAction::Run
    } else {
        QueryAction::Nothing
    }
}

/// The script that is handed to DuckDB: the preamble, then the user's SQL.
pub fn query_script(preamble: &str, sql: &str) -> (script: String)
    ensures
        script@ == preamble@ + "\n"@ + sql@ + "\n"@,
{
    let mut script = preamble.to_owned();
    script.append("\n");
    script.append(sql);
    script.append("\n");
    script
}

/// What a failure to start DuckDB says: a missing binary is the common case, and is
/// named together with how to fix it.
pub fn duckdb_spawn_error(kind: ErrorKind, error: &str) -> (message: String)
    ensures
        message@ == (if kind == ErrorKind::NotFound {
            "duckdb not found on PATH — `tender query` requires the DuckDB CLI.\nInstall it from https://duckdb.org and ensure `duckdb` is on your PATH."@
        } else {
            "failed to run duckdb: "@ + error@
        }),
{
    if kind == ErrorKind::NotFound {
        "duckdb not found on PATH — `tender query` requires the DuckDB CLI.\nInstall it from https://duckdb.org and ensure `duckdb` is on your PATH.".to_owned()
    } else {
        let mut message = "failed to run duckdb: ".to_owned();
        message.append(error);
        message
    }
}

/// The exit status of a query: DuckDB's own, or 1 where it has none.
pub fn exit_status(success: bool, code: Option<i32>) -> (status: i32)
    ensures
        status == (if success {
            0
        } else {
            match code {
                Some(c) => c,
                None => 1,
            }
        }),
{
    if success {
        0
    } else {
        match code {
            Some(code) => code,
            None => 1,
        }
    }
}

// What each operation does, in terms of what it was given and what it gave back.

/// Quotes are doubled wherever they stand.
proof fn lemma_doubled_joins(a: Seq<char>, b: Seq<char>)
    ensures
        doubled(a + b) =~= doubled(a) + doubled(b),
    decreases b.len(),
{
    if b.len() == 0 {
        assert(a + b =~= a);
    } else {
        assert((a + b).drop_last() =~= a + b.drop_last());
        lemma_doubled_joins(a, b.drop_last());
    }
}

/// A literal stands between two quotes, and what it stands for is read back from it. Every
/// quote of the text is there twice, and every other character once, in order.
pub proof fn law_literals(
    s: &str,
    literal: String,
    one: &str,
    single: String,
    longer: &str,
    whole: String,
)
    requires
        one@.len() == 1,
        longer@ == s@ + one@,
        call_ensures(sql_string_literal, (s,), literal),
        call_ensures(sql_string_literal, (one,), single),
        call_ensures(sql_string_literal, (longer,), whole),
    ensures
        ({
            let inside = literal@.subrange(1, literal@.len() - 1);
            &&& literal@.len() >= 2
            &&& literal@[0] == '\'' && literal@.last() == '\''
            &&& undoubled(inside) == Some(s@)
            &&& s@.len() == 0 ==> inside.len() == 0
            &&& single@ =~= (if one@[0] == '\'' {
                seq!['\'', '\'', '\'', '\'']
            } else {
                seq!['\'', one@[0], '\'']
            })
            &&& whole@ =~= seq!['\''] + inside + single@.skip(1)
        }),
{
    law_literal_round_trip(s@);
    assert(literal@.subrange(1, literal@.len() - 1) =~= doubled(s@));
    assert(one@.drop_last() =~= Seq::<char>::empty());
    assert(doubled(Seq::empty()) =~= Seq::<char>::empty());
    lemma_doubled_joins(s@, one@);
}

/// A segment of an event log is a file with something before its extension, which is
/// `jsonl`.
pub proof fn law_event_segments(name: &str, yes: bool)
    requires
        call_ensures(is_event_segment, (name,), yes),
    ensures
        yes <==> name@.len() > 6 && name@[name@.len() - 6] == '.' && name@[name@.len() - 5] == 'j'
            && name@[name@.len() - 4] == 's' && name@[name@.len() - 3] == 'o' && name@[name@.len()
            - 2] == 'n' && name@[name@.len() - 1] == 'l',
{
    reveal_strlit(".jsonl");
    if name@.len() > 6 {
        let tail = name@.skip(name@.len() - 6);
        assert(tail[0] == name@[name@.len() - 6] && tail[1] == name@[name@.len() - 5] && tail[2]
            == name@[name@.len() - 4] && tail[3] == name@[name@.len() - 3] && tail[4]
            == name@[name@.len() - 2] && tail[5] == name@[name@.len() - 1]);
        if tail[0] == '.' && tail[1] == 'j' && tail[2] == 's' && tail[3] == 'o' && tail[4] == 'n'
            && tail[5] == 'l' {
            assert(tail =~= ".jsonl"@);
        }
    }
}

/// The view has the same columns over any segments, and reads all of them, each by its
/// path as a literal, in order. Over none it is empty.
pub proof fn law_view_reads_every_segment(
    segments: Vec<String>,
    sql: String,
    path: &str,
    literal: String,
    more: Vec<String>,
    wider: String,
)
    requires
        call_ensures(build_view_sql, (&segments,), sql),
        call_ensures(sql_string_literal, (path,), literal),
        texts(more@) == texts(segments@).push(path@),
        call_ensures(build_view_sql, (&more,), wider),
    ensures
        ({
            let columns = "CREATE VIEW events AS SELECT "@ + "TRY_CAST(j->>'v' AS INT) AS v, j->>'id' AS id, TRY_CAST(j->>'ts' AS TIMESTAMP) AS ts, j->>'kind' AS kind, j->>'namespace' AS namespace, j->>'session' AS session, j->>'run_id' AS run_id, TRY_CAST(j->>'gen' AS UBIGINT) AS gen, j->>'writer' AS writer, TRY_CAST(j->>'seq' AS UBIGINT) AS seq, j->>'source' AS source, j->>'block_id' AS block_id, j->>'parent_id' AS parent_id, j->'data' AS data, j->'data_ref' AS data_ref"@;
            let from = " FROM read_json(["@;
            let options =
                "], format='newline_delimited', records=false, ignore_errors=true) t(j) WHERE j IS NOT NULL;"@;
            &&& segments@.len() == 0 ==> sql@ =~= columns
                + " FROM (SELECT NULL::JSON AS j) WHERE false;"@
            &&& segments@.len() == 0 ==> wider@ =~= columns + (from + literal@ + options)
            &&& segments@.len() > 0 ==> exists|paths: Seq<char>|
                sql@ =~= columns + (from + paths + options) && wider@ =~= columns + (from + (
                #[trigger] (paths + (", "@ + literal@))) + options)
        }),
{
    let paths = texts(segments@);
    let all = texts(more@);
    assert(paths.len() == segments@.len());
    assert(all.drop_last() =~= paths);
    if segments@.len() > 0 {
        assert(literal_list(all) =~= literal_list(paths) + (", "@ + literal@));
    }
}

/// The names of two lists are those of both together.
proof fn lemma_names_join(a: Seq<Seq<char>>, b: Seq<Seq<char>>)
    ensures
        named_parts(a + b) =~= named_parts(a) + named_parts(b),
    decreases b.len(),
{
    if b.len() == 0 {
        assert(a + b =~= a);
    } else {
        assert((a + b).drop_last() =~= a + b.drop_last());
        lemma_names_join(a, b.drop_last());
    }
}

/// Namespaces are named between commas, without the white space around them; nothing
/// between two commas names none. The names of a list are those before a comma and then
/// those behind it, in order.
pub proof fn law_namespaces_lie_between_commas(
    plain: &str,
    name: &str,
    left: &str,
    right: &str,
    joined: &str,
    one: Vec<String>,
    first: Vec<String>,
    second: Vec<String>,
    both: Vec<String>,
    none: Vec<String>,
)
    requires
        !plain@.contains(','),
        joined@ == left@.push(',') + right@,
        call_ensures(trim, (plain,), name),
        call_ensures(parse_namespaces, (Some(plain),), one),
        call_ensures(parse_namespaces, (Some(left),), first),
        call_ensures(parse_namespaces, (Some(right),), second),
        call_ensures(parse_namespaces, (Some(joined),), both),
        call_ensures(parse_namespaces, (None::<&str>,), none),
    ensures
        name@.len() == 0 ==> one@.len() == 0,
        name@.len() > 0 ==> texts(one@) =~= seq![name@],
        texts(both@) =~= texts(first@) + texts(second@),
        none@.len() == 0,
{
    crate::text::lemma_one_part(plain@);
    let parts = comma_parts(plain@);
    assert(parts.drop_last() =~= Seq::<Seq<char>>::empty());
    assert(parts.last() == plain@);
    assert(named_parts(parts.drop_last()) =~= Seq::<Seq<char>>::empty());
    assert(texts(one@).len() == one@.len());
    assert(texts(none@).len() == none@.len());
    crate::text::lemma_parts_on_both_sides(left@, right@);
    lemma_names_join(comma_parts(left@), comma_parts(right@));
}

/// The SQL is the inline one or that of the file, whichever was given; both, or neither, is
/// refused.
pub proof fn law_sql_has_one_source(
    sql: Option<String>,
    file: Option<String>,
    source: Result<SqlSource, &'static str>,
)
    requires
        call_ensures(resolve_sql, (sql, file), source),
    ensures
        source is Ok <==> (sql is Some) != (file is Some),
        sql matches Some(s) ==> (file is None ==> (source matches Ok(SqlSource::Inline(text))
            && text@ == s@)),
        file matches Some(f) ==> (sql is None ==> (source matches Ok(SqlSource::File(path)) && path@
            == f@)),
        source matches Err(reason) ==> reason@ == (if sql is Some {
            "provide either inline SQL or --file, not both"@
        } else {
            "no SQL provided"@
        }),
{
}

/// A version that is asked for comes before a shell, and that before SQL to run; without
/// any of them there is nothing to do.
pub proof fn law_query_actions(options: QueryOptions, action: QueryAction)
    requires
        call_ensures(query_action, (&options,), action),
    ensures
        action is Version <==> options.version,
        action is Shell <==> !options.version && options.shell,
        action is Run <==> !options.version && !options.shell && (options.sql is Some
            || options.file is Some),
{
}

/// The script is the preamble and then the SQL, each on lines of its own. A missing binary
/// is told with how to get it, any other failure with its own words. A query exits with
/// the status that DuckDB had: zero where it succeeded, its code where it has one, and one
/// otherwise.
pub proof fn law_query_runs(
    preamble: &str,
    sql: &str,
    script: String,
    kind: ErrorKind,
    error: &str,
    message: String,
    success: bool,
    code: Option<i32>,
    status: i32,
)
    requires
        call_ensures(query_script, (preamble, sql), script),
        call_ensures(duckdb_spawn_error, (kind, error), message),
        call_ensures(exit_status, (success, code), status),
    ensures
        script@ == preamble@ + "\n"@ + sql@ + "\n"@,
        kind is NotFound ==> message@
            == "duckdb not found on PATH — `tender query` requires the DuckDB CLI.\nInstall it from https://duckdb.org and ensure `duckdb` is on your PATH."@,
        !(kind is NotFound) ==> message@ == "failed to run duckdb: "@ + error@,
        success ==> status == 0,
        !success && code is None ==> status == 1,
        !success ==> (code matches Some(c) ==> status == c),
{
}

} // verus!
