//! The inflected forms of a headword: its stem joined to every suffix its
//! pattern's table lists.

use vstd::prelude::*;
use crate::host::{
    PlsInflectionsHost, QueryTables, SqlAnswers, Transliterations, answer_view, answers_one_way,
    host_answered, host_one_way,
    host_gave, host_transliterated, lemma_host_answered, lemma_host_transliterated, result_view,
};
use crate::metadata::{
    Pali1MetadataView, get_pali1_metadata, get_stem_for_indeclinable, index_asked,
    index_query_text, lemma_lookups_agree, metadata_from_host,
    indeclinable_stem_of, metadata_asked, metadata_from_stems, pali1_metadata_outcome,
    stems_query_text,
};
use crate::text::{replace_char, replace_spaces_with_underscores, split_on, split_text, text_equals};

verus! {

/// Every piece with `stem` put before it.
pub open spec fn prefixed(stem: Seq<char>, pieces: Seq<Seq<char>>) -> Seq<Seq<char>> {
    pieces.map_values(|p: Seq<char>| stem + p)
}

/// The forms that suffix rows give: each row's last cell is a comma-separated
/// list of suffixes, each joined to `stem`; `None` when a row is empty.
pub open spec fn inflections_from_rows(stem: Seq<char>, rows: Seq<Seq<Seq<char>>>) -> Option<
    Seq<Seq<char>>,
>
    decreases rows.len(),
{
    if rows.len() == 0 {
        Some(Seq::<Seq<char>>::empty())
    } else {
        match inflections_from_rows(stem, rows.drop_last()) {
            None => None,
            Some(prev) => if rows.last().len() == 0 {
                None
            } else {
                Some(prev + prefixed(stem, split_on(rows.last().last(), ',')))
            },
        }
    }
}

/// The error for a pattern whose suffix table cannot be read.
pub open spec fn no_pattern_text(pattern: Seq<char>) -> Seq<char> {
    "No pattern found for "@ + pattern
}

/// The forms a suffix query's answer gives: the rows of its last result set.
pub open spec fn inflections_from_suffix_tables(
    stem: Seq<char>,
    pattern: Seq<char>,
    tables: QueryTables,
) -> Result<Seq<Seq<char>>, Seq<char>> {
    if tables.len() == 0 {
        Err(no_pattern_text(pattern))
    } else {
        match inflections_from_rows(stem, tables.last()) {
            Some(forms) => Ok(forms),
            None => Err(no_pattern_text(pattern)),
        }
    }
}

/// A row without cells leaves the whole table unreadable.
pub proof fn lemma_empty_row_unreadable(stem: Seq<char>, rows: Seq<Seq<Seq<char>>>, k: int)
    requires
        0 <= k < rows.len(),
        rows[k].len() == 0,
    ensures
        inflections_from_rows(stem, rows) is None,
    decreases rows.len(),
{
    if k < rows.len() - 1 {
        lemma_empty_row_unreadable(stem, rows.drop_last(), k);
    }
}

/// The forms a suffix query's answer gives for `stem`: every suffix listed
/// in the last cell of each row of the last result set, in order, joined to
/// `stem`.
pub fn inflections_from_suffix_answer(
    stem: &str,
    pattern: &str,
    tables: &Vec<Vec<Vec<String>>>,
) -> (res: Result<Vec<String>, String>)
    ensures
        match res {
            Ok(forms) => inflections_from_suffix_tables(stem@, pattern@, tables.deep_view())
                == Ok::<Seq<Seq<char>>, Seq<char>>(forms.deep_view()),
            Err(e) => inflections_from_suffix_tables(stem@, pattern@, tables.deep_view()) == Err::<
                Seq<Seq<char>>,
                Seq<char>,
            >(e@),
        },
{
    let mut msg = String::from_str("No pattern found for ");
    msg.append(pattern);
    assert(msg@ == no_pattern_text(pattern@));
    if tables.len() == 0 {
        return Err(msg);
    }
    let rows = &tables[tables.len() - 1];
    let ghost rows_view = tables.deep_view().last();
    assert(rows.deep_view() == rows_view);
    let mut forms: Vec<String> = Vec::new();
    let mut i: usize = 0;
    assert(rows_view.take(0) =~= Seq::<Seq<Seq<char>>>::empty());
    assert(forms.deep_view() =~= Seq::<Seq<char>>::empty());
    while i < rows.len()
        invariant
            rows.deep_view() == rows_view,
            tables.deep_view().len() > 0,
            rows_view == tables.deep_view().last(),
            msg@ == no_pattern_text(pattern@),
            i <= rows.len(),
            inflections_from_rows(stem@, rows_view.take(i as int)) == Some(forms.deep_view()),
        decreases rows.len() - i,
    {
        let row = &rows[i];
        assert(row.deep_view() == rows_view[i as int]);
        assert(rows_view.take(i + 1).drop_last() =~= rows_view.take(i as int));
        if row.len() == 0 {
            proof {
                lemma_empty_row_unreadable(stem@, rows_view, i as int);
                assert(inflections_from_suffix_tables(stem@, pattern@, tables.deep_view()) == Err::<
                    Seq<Seq<char>>,
                    Seq<char>,
                >(msg@));
            }
            return Err(msg);
        }
        let pieces = split_text(row[row.len() - 1].as_str(), ',');
        let ghost before = forms.deep_view();
        let ghost added = prefixed(stem@, pieces.deep_view());
        let mut j: usize = 0;
        while j < pieces.len()
            invariant
                j <= pieces.len(),
                added == prefixed(stem@, pieces.deep_view()),
                forms.deep_view() =~= before + added.take(j as int),
            decreases pieces.len() - j,
        {
            let mut form = String::from_str(stem);
            form.append(pieces[j].as_str());
            let ghost f0 = forms.deep_view();
            forms.push(form);
            assert(forms.deep_view() =~= f0.push(form@));
            assert(added.take(j + 1) =~= added.take(j as int).push(added[j as int]));
            j = j + 1;
        }
        assert(added.take(pieces.len() as int) =~= added);
        i = i + 1;
    }
    assert(rows_view.take(rows.len() as int) =~= rows_view);
    Ok(forms)
}


/// Prefixing a joined list prefixes each part.
proof fn lemma_prefixed_add(stem: Seq<char>, a: Seq<Seq<char>>, b: Seq<Seq<char>>)
    ensures
        prefixed(stem, a + b) =~= prefixed(stem, a) + prefixed(stem, b),
{
}

/// Prefixing with `stem` what was prefixed with nothing prefixes with `stem`.
proof fn lemma_prefixed_after_empty(stem: Seq<char>, pieces: Seq<Seq<char>>)
    ensures
        prefixed(stem, prefixed(Seq::<char>::empty(), pieces)) =~= prefixed(stem, pieces),
{
    assert forall|k: int| 0 <= k < pieces.len() implies Seq::<char>::empty() + pieces[k]
        =~= pieces[k] by {}
}

/// The forms rows give for `stem` are those they give for no stem, each
/// with `stem` put in front.
pub proof fn lemma_rows_with_stem(stem: Seq<char>, rows: Seq<Seq<Seq<char>>>)
    ensures
        inflections_from_rows(stem, rows) == match inflections_from_rows(Seq::<char>::empty(), rows) {
            Some(forms) => Some(prefixed(stem, forms)),
            None => None,
        },
    decreases rows.len(),
{
    if rows.len() > 0 {
        lemma_rows_with_stem(stem, rows.drop_last());
        let empty = Seq::<char>::empty();
        if let Some(prev) = inflections_from_rows(empty, rows.drop_last()) {
            if rows.last().len() > 0 {
                let pieces = split_on(rows.last().last(), ',');
                lemma_prefixed_add(stem, prev, prefixed(empty, pieces));
                lemma_prefixed_after_empty(stem, pieces);
            }
        }
    }
}

/// A regular word's forms are an irregular word's forms for the same
/// pattern and answers, each with the stem put in front; the errors are the
/// same.
pub proof fn lemma_regular_forms_are_prefixed_irregular(
    stem: Seq<char>,
    pattern: Seq<char>,
    db: SqlAnswers,
)
    ensures
        suffix_inflections_outcome(stem, pattern, db) == match suffix_inflections_outcome(
            Seq::<char>::empty(),
            pattern,
            db,
        ) {
            Ok(forms) => Ok(prefixed(stem, forms)),
            Err(e) => Err(e),
        },
{
    if let Ok(tables) = db(suffix_query_text(pattern)) {
        if tables.len() > 0 {
            lemma_rows_with_stem(stem, tables.last());
        }
    }
}

/// The SQL text that reads a pattern's suffix table.
pub open spec fn suffix_query_text(pattern: Seq<char>) -> Seq<char> {
    "Select * from "@ + pattern
}

/// The SQL text that reads a pattern's suffix table.
pub fn suffix_query(pattern: &str) -> (sql: String)
    ensures
        sql@ == suffix_query_text(pattern@),
{
    let mut sql = String::from_str("Select * from ");
    sql.append(pattern);
    sql
}

/// The forms for `stem` when `db` answers the suffix query of `pattern`.
pub open spec fn suffix_inflections_outcome(stem: Seq<char>, pattern: Seq<char>, db: SqlAnswers) -> Result<
    Seq<Seq<char>>,
    Seq<char>,
> {
    match db(suffix_query_text(pattern)) {
        Err(e) => Err(e),
        Ok(tables) => inflections_from_suffix_tables(stem, pattern, tables),
    }
}

/// `db`'s answer to the suffix query of `pattern` is the host's answer to it.
pub open spec fn suffix_query_asked<'a, H: PlsInflectionsHost<'a> + ?Sized>(
    host: &H,
    pattern: Seq<char>,
    db: SqlAnswers,
) -> bool {
    host_answered(host, suffix_query_text(pattern), db(suffix_query_text(pattern)))
}

/// `forms` is what reading the suffix table of `pattern` gives for `stem`
/// when the host is asked: the outcome for some answers `db` whose answer to
/// the suffix query is the host's.
pub open spec fn suffix_forms_from_host<'a, H: PlsInflectionsHost<'a> + ?Sized>(
    host: &H,
    stem: Seq<char>,
    pattern: Seq<char>,
    forms: Result<Seq<Seq<char>>, Seq<char>>,
) -> bool {
    exists|db: SqlAnswers|
        forms == #[trigger] suffix_inflections_outcome(stem, pattern, db) && suffix_query_asked(
            host,
            pattern,
            db,
        )
}

/// The suffix query is never the same text as the stems query or the index
/// query.
pub proof fn lemma_suffix_query_differs(table: Seq<char>, pali1: Seq<char>, pattern: Seq<char>)
    ensures
        suffix_query_text(table) != stems_query_text(pali1),
        suffix_query_text(table) != index_query_text(pattern),
{
    reveal_strlit("Select * from ");
    reveal_strlit("select stem, pattern, pos, definition from '_stems' where pāli1 = \"");
    reveal_strlit("select inflection_class, like from '_index' where name = \"");
    assert(suffix_query_text(table)[0] == 'S');
    assert(stems_query_text(pali1)[0] == 's');
    assert(index_query_text(pattern)[0] == 's');
}

/// The view of a list of texts, or of the error met instead.
pub open spec fn texts_view(r: Result<Vec<String>, String>) -> Result<Seq<Seq<char>>, Seq<char>> {
    match r {
        Ok(v) => Ok(v.deep_view()),
        Err(e) => Err(e@),
    }
}

/// Asks the host for a pattern's suffix table (`suffix_query`): the result
/// is what the host answers that text with.
pub fn get_inflection_suffixes_for_pattern<'a, H: PlsInflectionsHost<'a> + ?Sized>(
    pattern: &str,
    host: &H,
) -> (res: Result<Vec<Vec<Vec<String>>>, String>)
    ensures
        host_gave(host, suffix_query_text(pattern@), res),
{
    let sql = suffix_query(pattern);
    let q = sql.as_str();
    let res = host.exec_sql_query(q);
    proof {
        lemma_host_answered(host, q, res);
    }
    res
}

/// The one form of an indeclinable: the headword without its homonym number.
pub fn get_all_inflections_for_indeclinables(pali1: &str) -> (res: Result<Vec<String>, String>)
    ensures
        match res {
            Ok(forms) => exists|s: Seq<char>|
                indeclinable_stem_of(pali1@) == Ok::<Seq<char>, Seq<char>>(s) && forms.deep_view()
                    == seq![s],
            Err(e) => indeclinable_stem_of(pali1@) == Err::<Seq<char>, Seq<char>>(e@),
        },
{
    match get_stem_for_indeclinable(pali1) {
        Ok(s) => {
            let ghost sv = s@;
            let mut forms: Vec<String> = Vec::new();
            forms.push(s);
            assert(forms.deep_view() =~= seq![sv]);
            Ok(forms)
        },
        Err(e) => Err(e),
    }
}

/// The forms of an irregular word: every suffix its pattern's table lists,
/// taken as it stands.
pub fn get_all_inflections_for_irregulars<'a, H: PlsInflectionsHost<'a> + ?Sized>(
    pattern: &str,
    host: &H,
) -> (res: Result<Vec<String>, String>)
    ensures
        suffix_forms_from_host(host, Seq::<char>::empty(), pattern@, texts_view(res)),
{
    let answer = get_inflection_suffixes_for_pattern(pattern, host);
    let ghost a = answer_view(answer);
    let ghost db: SqlAnswers = |q: Seq<char>| a;
    assert(host_answered(host, suffix_query_text(pattern@), db(suffix_query_text(pattern@))));
    let empty = "";
    proof {
        reveal_strlit("");
        assert(empty@ =~= Seq::<char>::empty());
    }
    let res = match answer {
        Ok(tables) => inflections_from_suffix_answer(empty, pattern, &tables),
        Err(e) => Err(e),
    };
    assert(texts_view(res) == suffix_inflections_outcome(Seq::<char>::empty(), pattern@, db));
    res
}

/// The forms of a regular word: its stem joined to every suffix its
/// pattern's table lists.
pub fn get_all_inflections_for_regulars<'a, H: PlsInflectionsHost<'a> + ?Sized>(
    stem: &str,
    pattern: &str,
    host: &H,
) -> (res: Result<Vec<String>, String>)
    ensures
        suffix_forms_from_host(host, stem@, pattern@, texts_view(res)),
{
    let answer = get_inflection_suffixes_for_pattern(pattern, host);
    let ghost a = answer_view(answer);
    let ghost db: SqlAnswers = |q: Seq<char>| a;
    assert(host_answered(host, suffix_query_text(pattern@), db(suffix_query_text(pattern@))));
    let res = match answer {
        Ok(tables) => inflections_from_suffix_answer(stem, pattern, &tables),
        Err(e) => Err(e),
    };
    assert(texts_view(res) == suffix_inflections_outcome(stem@, pattern@, db));
    res
}

/// The table a pattern's suffixes are kept in: its name with spaces turned
/// into underscores.
pub fn get_table_name_from_pattern(pattern: &str) -> (table: String)
    ensures
        table@ == replace_char(pattern@, ' ', '_'),
{
    replace_spaces_with_underscores(pattern)
}

/// Every form of a headword when `db` answers the stems, index and suffix
/// queries and `tr` transliterates the like-word.
pub open spec fn all_inflections_outcome(
    pali1: Seq<char>,
    db: SqlAnswers,
    tr: Transliterations,
) -> Result<Seq<Seq<char>>, Seq<char>> {
    match pali1_metadata_outcome(pali1, db, tr) {
        Err(e) => Err(e),
        Ok(pm) => {
            let table = replace_char(pm.pattern, ' ', '_');
            if pm.stem == "-"@ {
                match indeclinable_stem_of(pali1) {
                    Ok(s) => Ok(seq![s]),
                    Err(e) => Err(e),
                }
            } else if pm.stem == "*"@ {
                suffix_inflections_outcome(Seq::<char>::empty(), table, db)
            } else {
                suffix_inflections_outcome(pm.stem, table, db)
            }
        },
    }
}

/// What generating every form with answers `db` and transliterations `tr`
/// took from the host: what the lookup took (`metadata_asked`) and, for a
/// word that is not indeclinable, the host's answer to the suffix query of
/// its pattern's table.
pub open spec fn all_inflections_asked<'a, H: PlsInflectionsHost<'a> + ?Sized>(
    host: &H,
    pali1: Seq<char>,
    db: SqlAnswers,
    tr: Transliterations,
) -> bool {
    &&& metadata_asked(host, pali1, db, tr)
    &&& match pali1_metadata_outcome(pali1, db, tr) {
        Ok(pm) => pm.stem != "-"@ ==> suffix_query_asked(
            host,
            replace_char(pm.pattern, ' ', '_'),
            db,
        ),
        Err(_) => true,
    }
}

/// `forms` is every form of `pali1` when the host is asked: the outcome for
/// some answers and transliterations that are, where they are read, the
/// host's (`all_inflections_asked`).
pub open spec fn all_forms_from_host<'a, H: PlsInflectionsHost<'a> + ?Sized>(
    host: &H,
    pali1: Seq<char>,
    forms: Result<Seq<Seq<char>>, Seq<char>>,
) -> bool {
    exists|db: SqlAnswers, tr: Transliterations|
        forms == #[trigger] all_inflections_outcome(pali1, db, tr) && all_inflections_asked(
            host,
            pali1,
            db,
            tr,
        )
}

/// Answering the suffix query of `table` otherwise leaves a lookup as it was.
proof fn lemma_lookup_ignores_suffix_answer<'a, H: PlsInflectionsHost<'a> + ?Sized>(
    host: &H,
    pali1: Seq<char>,
    db: SqlAnswers,
    tr: Transliterations,
    table: Seq<char>,
    answers: SqlAnswers,
)
    ensures
        pali1_metadata_outcome(pali1, db, tr) == pali1_metadata_outcome(
            pali1,
            |q: Seq<char>| if q == suffix_query_text(table) {
                answers(q)
            } else {
                db(q)
            },
            tr,
        ),
        metadata_asked(host, pali1, db, tr) == metadata_asked(
            host,
            pali1,
            |q: Seq<char>| if q == suffix_query_text(table) {
                answers(q)
            } else {
                db(q)
            },
            tr,
        ),
{
    let db2 = |q: Seq<char>| if q == suffix_query_text(table) {
        answers(q)
    } else {
        db(q)
    };
    lemma_suffix_query_differs(table, pali1, Seq::<char>::empty());
    assert(db2(stems_query_text(pali1)) == db(stems_query_text(pali1)));
    if let Ok(tables) = db(stems_query_text(pali1)) {
        if let Ok(pm) = metadata_from_stems(pali1, tables) {
            lemma_suffix_query_differs(table, pali1, pm.pattern);
            assert(db2(index_query_text(pm.pattern)) == db(index_query_text(pm.pattern)));
            assert(index_asked(host, pm.pattern, db, tr) == index_asked(host, pm.pattern, db2, tr));
        }
    }
}

/// Every inflected form of a headword: the headword without its homonym
/// number for an indeclinable (stem `-`), and otherwise the stem joined to
/// each suffix of the pattern's table.
pub fn generate_all_inflections<'a, H: PlsInflectionsHost<'a> + ?Sized>(pali1: &str, host: &H) -> (res:
    Result<Vec<String>, String>)
    ensures
        all_forms_from_host(host, pali1@, texts_view(res)),
{
    let md = get_pali1_metadata(pali1, host);
    let ghost (db1, tr1) = choose|db: SqlAnswers, tr: Transliterations|
        result_view(md) == #[trigger] pali1_metadata_outcome(pali1@, db, tr) && metadata_asked(
            host,
            pali1@,
            db,
            tr,
        );
    let pm = match md {
        Ok(pm) => pm,
        Err(e) => {
            assert(texts_view(Err(e)) == all_inflections_outcome(pali1@, db1, tr1));
            return Err(e);
        },
    };
    let table_name = get_table_name_from_pattern(pm.pattern.as_str());
    proof {
        reveal_strlit("-");
        reveal_strlit("*");
    }
    if text_equals(pm.stem.as_str(), "-") {
        let res = get_all_inflections_for_indeclinables(pali1);
        assert(texts_view(res) == all_inflections_outcome(pali1@, db1, tr1));
        res
    } else {
        let res = if text_equals(pm.stem.as_str(), "*") {
            get_all_inflections_for_irregulars(table_name.as_str(), host)
        } else {
            get_all_inflections_for_regulars(pm.stem.as_str(), table_name.as_str(), host)
        };
        proof {
            let stem = if pm.stem@ == "*"@ {
                Seq::<char>::empty()
            } else {
                pm.stem@
            };
            let db2 = choose|db: SqlAnswers|
                texts_view(res) == #[trigger] suffix_inflections_outcome(stem, table_name@, db)
                    && suffix_query_asked(host, table_name@, db);
            let db3 = |q: Seq<char>| if q == suffix_query_text(table_name@) {
                db2(q)
            } else {
                db1(q)
            };
            lemma_lookup_ignores_suffix_answer(host, pali1@, db1, tr1, table_name@, db2);
            assert(db3(suffix_query_text(table_name@)) == db2(suffix_query_text(table_name@)));
            assert(texts_view(res) == all_inflections_outcome(pali1@, db3, tr1));
        }
        res
    }
}


/// The comma-separated forms an answer lists: the one cell of its one row
/// of its one result set, nothing for any other shape, and the error's
/// message when the query failed.
pub open spec fn inflection_list_text(answer: Result<QueryTables, Seq<char>>) -> Seq<char> {
    match answer {
        Ok(t) => if t.len() == 1 && t[0].len() == 1 && t[0][0].len() == 1 {
            t[0][0][0]
        } else {
            Seq::<char>::empty()
        },
        Err(e) => e,
    }
}

/// The comma-separated forms an answer lists.
pub fn inflection_list_from_answer(answer: &Result<Vec<Vec<Vec<String>>>, String>) -> (text: String)
    ensures
        text@ == inflection_list_text(answer_view(*answer)),
{
    match answer {
        Ok(t) => {
            if t.len() == 1 && t[0].len() == 1 && t[0][0].len() == 1 {
                assert(t[0][0].deep_view() == t.deep_view()[0][0]);
                t[0][0][0].clone()
            } else {
                String::new()
            }
        },
        Err(e) => e.clone(),
    }
}

/// The text of a transliteration, or of the error met instead.
pub open spec fn either_text(t: Result<Seq<char>, Seq<char>>) -> Seq<char> {
    match t {
        Ok(s) => s,
        Err(e) => e,
    }
}

/// `s` is how `stem` joined to `suffix` is shown: nothing for an empty
/// suffix, else what the host returned when asked to transliterate `stem`
/// followed by `suffix` (the transliteration, or the message of a failed one).
pub open spec fn shown_by_host<'a, H: PlsInflectionsHost<'a> + ?Sized>(
    host: &H,
    stem: Seq<char>,
    suffix: Seq<char>,
    s: Seq<char>,
) -> bool {
    if suffix.len() == 0 {
        s == Seq::<char>::empty()
    } else {
        exists|t: Result<Seq<char>, Seq<char>>|
            #[trigger] host_transliterated(host, stem + suffix, t) && s == either_text(t)
    }
}

/// Shows `stem` joined to `suffix`, transliterated by the host; an empty
/// suffix shows nothing, and a failed transliteration shows its message.
pub fn join_and_transliterate_if_not_empty<'a, H: PlsInflectionsHost<'a> + ?Sized>(
    stem: &str,
    suffix: &str,
    host: &H,
) -> (shown: String)
    ensures
        shown_by_host(host, stem@, suffix@, shown@),
{
    if suffix.unicode_len() == 0 {
        String::new()
    } else {
        let mut word = String::from_str(stem);
        word.append(suffix);
        let w = word.as_str();
        let t = host.transliterate(w);
        proof {
            lemma_host_transliterated(host, w, t);
        }
        let ghost tv = result_view(t);
        let shown = match t {
            Ok(s) => s,
            Err(e) => e,
        };
        assert(host_transliterated(host, stem@ + suffix@, tv) && shown@ == either_text(tv));
        shown
    }
}

/// `forms` are what `get_inflections` makes of the host's `answer` to `sql`:
/// each comma-separated suffix the answer lists is shown (`shown_by_host`)
/// in the order listed, giving `shown`, which is then sorted stably by
/// `compare`, the text at place `k` coming from place `origin[k]`.
pub open spec fn inflections_shown<'a, H: PlsInflectionsHost<'a> + ?Sized, F: Fn(
    &String,
    &String,
) -> i32>(
    host: &H,
    stem: Seq<char>,
    sql: Seq<char>,
    compare: F,
    answer: Result<QueryTables, Seq<char>>,
    shown: Seq<String>,
    origin: Seq<int>,
    forms: Seq<String>,
) -> bool {
    let suffixes = split_on(inflection_list_text(answer), ',');
    &&& host_answered(host, sql, answer)
    &&& shown.len() == suffixes.len()
    &&& forall|k: int|
        0 <= k < shown.len() ==> shown_by_host(host, stem, suffixes[k], (#[trigger] shown[k])@)
    &&& crate::ordering::stably_sorted(compare, shown, forms, origin)
}

/// The forms an SQL text lists for `stem`, each transliterated by the host,
/// in the order `string_compare` gives (negative: the first comes first),
/// forms that compare equal keeping the order the answer lists them in.
pub fn get_inflections<'a, H: PlsInflectionsHost<'a> + ?Sized, F: Fn(&String, &String) -> i32>(
    stem: &str,
    sql: &str,
    host: &H,
    string_compare: F,
) -> (forms: Vec<String>)
    requires
        forall|a: &String, b: &String| call_requires(string_compare, (a, b)),
    ensures
        exists|answer: Result<QueryTables, Seq<char>>, shown: Seq<String>, origin: Seq<int>|
            #[trigger] inflections_shown(
                host,
                stem@,
                sql@,
                string_compare,
                answer,
                shown,
                origin,
                forms@,
            ),
        crate::ordering::sorted_by(string_compare, forms@),
{
    let answer = host.exec_sql_query(sql);
    proof {
        lemma_host_answered(host, sql, answer);
    }
    let ghost av = answer_view(answer);
    let text = inflection_list_from_answer(&answer);
    let suffixes = split_text(text.as_str(), ',');
    let ghost sv = suffixes.deep_view();
    let mut shown: Vec<String> = Vec::new();
    let mut i: usize = 0;
    while i < suffixes.len()
        invariant
            i <= suffixes.len(),
            sv == suffixes.deep_view(),
            shown.len() == i,
            forall|k: int|
                0 <= k < i ==> shown_by_host(host, stem@, sv[k], (#[trigger] shown@[k])@),
        decreases suffixes.len() - i,
    {
        let s = join_and_transliterate_if_not_empty(stem, suffixes[i].as_str(), host);
        let ghost before = shown@;
        shown.push(s);
        proof {
            assert(sv[i as int] == suffixes[i as int]@);
            assert forall|k: int| 0 <= k < i + 1 implies shown_by_host(
                host,
                stem@,
                sv[k],
                (#[trigger] shown@[k])@,
            ) by {
                if k < i {
                    assert(shown@[k] == before[k]);
                }
            }
        }
        i = i + 1;
    }
    let ghost shown_seq = shown@;
    let forms = crate::ordering::sort_texts(shown, string_compare);
    proof {
        assert(split_on(inflection_list_text(av), ',') == sv);
        let origin = choose|origin: Seq<int>|
            #[trigger] crate::ordering::stably_sorted(string_compare, shown_seq, forms@, origin);
        assert(inflections_shown(host, stem@, sql@, string_compare, av, shown_seq, origin, forms@));
    }
    forms
}

/// The error for a count query whose answer holds no count.
pub open spec fn no_count_text(query: Seq<char>) -> Seq<char> {
    "Query '"@ + query + "' returned no count."@
}

/// Whether `db`'s answer to a count query says zero: its first cell is `0`.
pub open spec fn count_is_zero(query: Seq<char>, db: SqlAnswers) -> Result<bool, Seq<char>> {
    match db(query) {
        Err(e) => Err(e),
        Ok(t) => if t.len() >= 1 && t[0].len() >= 1 && t[0][0].len() >= 1 {
            Ok(t[0][0][0] == "0"@)
        } else {
            Err(no_count_text(query))
        },
    }
}

/// `res` is what reading a count query's answer gives when the host is
/// asked `query`: the outcome for some answers whose answer to `query` is
/// the host's.
pub open spec fn count_from_host<'a, H: PlsInflectionsHost<'a> + ?Sized>(
    host: &H,
    query: Seq<char>,
    res: Result<bool, Seq<char>>,
) -> bool {
    exists|db: SqlAnswers| #[trigger] host_answered(host, query, db(query)) && res == count_is_zero(query, db)
}

/// Whether a count query (`select count(*) ...`) finds nothing: the host is
/// asked `query`, and its answer is read.
pub fn query_has_no_results<'a, H: PlsInflectionsHost<'a> + ?Sized>(query: &str, host: &H) -> (res:
    Result<bool, String>)
    ensures
        count_from_host(
            host,
            query@,
            match res {
                Ok(b) => Ok::<bool, Seq<char>>(b),
                Err(e) => Err::<bool, Seq<char>>(e@),
            },
        ),
{
    let answer = host.exec_sql_query(query);
    let ghost av = answer_view(answer);
    let ghost db: SqlAnswers = |q: Seq<char>| av;
    assert(db(query@) == av);
    proof {
        lemma_host_answered(host, query, answer);
    }
    match answer {
        Err(e) => {
            assert(Err::<bool, Seq<char>>(e@) == count_is_zero(query@, db));
            Err(e)
        },
        Ok(t) => {
            if t.len() >= 1 && t[0].len() >= 1 && t[0][0].len() >= 1 {
                assert(t[0][0].deep_view() == t.deep_view()[0][0]);
                let b = text_equals(t[0][0][0].as_str(), "0");
                assert(Ok::<bool, Seq<char>>(b) == count_is_zero(query@, db));
                Ok(b)
            } else {
                let mut msg = String::from_str("Query '");
                msg.append(query);
                msg.append("' returned no count.");
                assert(Err::<bool, Seq<char>>(msg@) == count_is_zero(query@, db));
                Err(msg)
            }
        },
    }
}


/// Every form a suffix table gives is the stem followed by one of the
/// suffixes a row lists.
pub proof fn lemma_forms_are_stem_and_suffix(
    stem: Seq<char>,
    rows: Seq<Seq<Seq<char>>>,
    forms: Seq<Seq<char>>,
    k: int,
)
    requires
        inflections_from_rows(stem, rows) == Some(forms),
        0 <= k < forms.len(),
    ensures
        exists|r: int, p: int|
            0 <= r < rows.len() && rows[r].len() > 0 && 0 <= p < split_on(rows[r].last(), ',').len()
                && forms[k] == stem + #[trigger] split_on(rows[r].last(), ',')[p],
    decreases rows.len(),
{
    let prev = inflections_from_rows(stem, rows.drop_last())->Some_0;
    let r = rows.len() - 1;
    if k < prev.len() {
        lemma_forms_are_stem_and_suffix(stem, rows.drop_last(), prev, k);
        let (r0, p0) = choose|r0: int, p0: int|
            0 <= r0 < rows.drop_last().len() && rows.drop_last()[r0].len() > 0 && 0 <= p0 < split_on(
                rows.drop_last()[r0].last(),
                ',',
            ).len() && prev[k] == stem + #[trigger] split_on(rows.drop_last()[r0].last(), ',')[p0];
        assert(rows[r0] == rows.drop_last()[r0]);
        assert(forms[k] == prev[k]);
        assert(forms[k] == stem + split_on(rows[r0].last(), ',')[p0]);
    } else {
        let p = k - prev.len();
        assert(forms[k] == stem + split_on(rows[r].last(), ',')[p]);
    }
}

/// A looked-up headword's forms are its indeclinable form, or its stem
/// joined to its pattern's suffixes: the branch for a `*` stem is never
/// taken, since the lookup keeps an irregular stem empty.
pub proof fn lemma_all_inflections_regular_or_indeclinable(
    pali1: Seq<char>,
    db: SqlAnswers,
    tr: Transliterations,
    pm: crate::metadata::Pali1MetadataView,
)
    requires
        pali1_metadata_outcome(pali1, db, tr) == Ok::<
            crate::metadata::Pali1MetadataView,
            Seq<char>,
        >(pm),
        pm.stem != "-"@,
    ensures
        all_inflections_outcome(pali1, db, tr)
            == suffix_inflections_outcome(pm.stem, replace_char(pm.pattern, ' ', '_'), db),
{
    crate::metadata::lemma_metadata_outcome_shape(pali1, db, tr, pm);
}

/// Reading one pattern's suffix table for a regular word (`stem`) and for an
/// irregular one: when the host answers the suffix query one way, the
/// regular forms are the irregular ones with `stem` in front, the errors are
/// the same, and with an empty stem the two are equal.
pub proof fn lemma_regular_and_irregular_forms<'a, H: PlsInflectionsHost<'a> + ?Sized>(
    host: &H,
    stem: Seq<char>,
    pattern: Seq<char>,
    regular: Result<Seq<Seq<char>>, Seq<char>>,
    irregular: Result<Seq<Seq<char>>, Seq<char>>,
)
    requires
        answers_one_way(host, suffix_query_text(pattern)),
        suffix_forms_from_host(host, stem, pattern, regular),
        suffix_forms_from_host(host, Seq::<char>::empty(), pattern, irregular),
    ensures
        regular == match irregular {
            Ok(forms) => Ok(prefixed(stem, forms)),
            Err(e) => Err(e),
        },
        stem.len() == 0 ==> regular == irregular,
{
    let q = suffix_query_text(pattern);
    let db1 = choose|db: SqlAnswers|
        regular == #[trigger] suffix_inflections_outcome(stem, pattern, db) && suffix_query_asked(
            host,
            pattern,
            db,
        );
    let db2 = choose|db: SqlAnswers|
        irregular == #[trigger] suffix_inflections_outcome(Seq::<char>::empty(), pattern, db)
            && suffix_query_asked(host, pattern, db);
    assert(db1(q) == db2(q));
    lemma_regular_forms_are_prefixed_irregular(stem, pattern, db1);
    if stem.len() == 0 {
        assert(stem =~= Seq::<char>::empty());
        if let Ok(forms) = irregular {
            lemma_prefixed_after_empty(Seq::<char>::empty(), forms);
            assert(prefixed(Seq::<char>::empty(), forms) =~= forms) by {
                assert forall|k: int| 0 <= k < forms.len() implies Seq::<char>::empty() + forms[k]
                    =~= forms[k] by {}
            }
        }
    }
}

/// Looking a headword up, then generating all its forms, then reading its
/// pattern's table for its stem: when the host answers and transliterates
/// one way and the looked-up stem is not `-`, all the forms are the regular
/// forms for the stem and the pattern with its spaces as underscores.
pub proof fn lemma_all_forms_are_regular_forms<'a, H: PlsInflectionsHost<'a> + ?Sized>(
    host: &H,
    pali1: Seq<char>,
    pm: Pali1MetadataView,
    all: Result<Seq<Seq<char>>, Seq<char>>,
    regular: Result<Seq<Seq<char>>, Seq<char>>,
)
    requires
        host_one_way(host),
        metadata_from_host(host, pali1, Ok::<Pali1MetadataView, Seq<char>>(pm)),
        pm.stem != "-"@,
        all_forms_from_host(host, pali1, all),
        suffix_forms_from_host(host, pm.stem, replace_char(pm.pattern, ' ', '_'), regular),
    ensures
        all == regular,
{
    let (db1, tr1) = choose|db: SqlAnswers, tr: Transliterations|
        Ok::<Pali1MetadataView, Seq<char>>(pm) == #[trigger] pali1_metadata_outcome(pali1, db, tr)
            && metadata_asked(host, pali1, db, tr);
    let (db2, tr2) = choose|db: SqlAnswers, tr: Transliterations|
        all == #[trigger] all_inflections_outcome(pali1, db, tr) && all_inflections_asked(
            host,
            pali1,
            db,
            tr,
        );
    let table = replace_char(pm.pattern, ' ', '_');
    let db3 = choose|db: SqlAnswers|
        regular == #[trigger] suffix_inflections_outcome(pm.stem, table, db) && suffix_query_asked(
            host,
            table,
            db,
        );
    lemma_lookups_agree(host, pali1, db1, tr1, db2, tr2);
    lemma_all_inflections_regular_or_indeclinable(pali1, db2, tr2, pm);
    let q = suffix_query_text(table);
    assert(answers_one_way(host, q));
    assert(db2(q) == db3(q));
}

/// A count query finds nothing exactly when the count is the text `0`: a
/// count read from the host's answer is the first cell of its first row of
/// its first result set, and it says "nothing" exactly when that cell is `0`
/// (so `10` or `00` find something). A failure is the host's error, or, for
/// an answer without that cell, the "returned no count" message.
pub proof fn lemma_count_is_the_text_zero<'a, H: PlsInflectionsHost<'a> + ?Sized>(
    host: &H,
    query: Seq<char>,
    res: Result<bool, Seq<char>>,
)
    requires
        count_from_host(host, query, res),
    ensures
        res matches Ok(b) ==> exists|t: QueryTables|
            #[trigger] host_answered(host, query, Ok::<QueryTables, Seq<char>>(t)) && t.len() >= 1
                && t[0].len() >= 1 && t[0][0].len() >= 1 && (b <==> t[0][0][0] == "0"@),
        res matches Err(e) ==> host_answered(host, query, Err::<QueryTables, Seq<char>>(e))
            || exists|t: QueryTables|
            #[trigger] host_answered(host, query, Ok::<QueryTables, Seq<char>>(t)) && !(t.len() >= 1
                && t[0].len() >= 1 && t[0][0].len() >= 1) && e == "Query '"@ + query
                + "' returned no count."@,
{
    let db = choose|db: SqlAnswers|
        #[trigger] host_answered(host, query, db(query)) && res == count_is_zero(query, db);
    if let Ok(t) = db(query) {
        assert(host_answered(host, query, Ok::<QueryTables, Seq<char>>(t)));
    }
}

/// The number of suffixes that the rows before row `r` list in their last
/// cells.
pub open spec fn suffixes_before(rows: Seq<Seq<Seq<char>>>, r: int) -> int
    decreases r,
{
    if r <= 0 {
        0
    } else {
        suffixes_before(rows, r - 1) + split_on(rows[r - 1].last(), ',').len()
    }
}

/// Counting the suffixes before a row does not look at the rows after it.
proof fn lemma_suffixes_before_prefix(rows: Seq<Seq<Seq<char>>>, n: int, r: int)
    requires
        0 <= r <= n <= rows.len(),
    ensures
        suffixes_before(rows.take(n), r) == suffixes_before(rows, r),
    decreases r,
{
    if r > 0 {
        lemma_suffixes_before_prefix(rows, n, r - 1);
        assert(rows.take(n)[r - 1] == rows[r - 1]);
    }
}

/// Every row is readable, and the forms are, in order, the stem joined to
/// each suffix of each row: row `r`'s suffix `p` stands at place
/// `suffixes_before(rows, r) + p`, and nothing else is listed.
proof fn lemma_rows_list_every_suffix(stem: Seq<char>, rows: Seq<Seq<Seq<char>>>, forms: Seq<Seq<char>>)
    requires
        inflections_from_rows(stem, rows) == Some(forms),
    ensures
        forall|r: int| 0 <= r < rows.len() ==> (#[trigger] rows[r]).len() > 0,
        forms.len() == suffixes_before(rows, rows.len() as int),
        forall|r: int, p: int|
            0 <= r < rows.len() && 0 <= p < split_on(rows[r].last(), ',').len() ==> forms[suffixes_before(
                rows,
                r,
            ) + p] == stem + #[trigger] split_on(rows[r].last(), ',')[p],
    decreases rows.len(),
{
    if rows.len() > 0 {
        let init = rows.drop_last();
        let prev = inflections_from_rows(stem, init)->Some_0;
        lemma_rows_list_every_suffix(stem, init, prev);
        let n = rows.len() - 1;
        assert(init =~= rows.take(n));
        lemma_suffixes_before_prefix(rows, n, n);
        let pieces = split_on(rows.last().last(), ',');
        assert(forms == prev + prefixed(stem, pieces));
        assert forall|r: int| 0 <= r < rows.len() implies (#[trigger] rows[r]).len() > 0 by {
            if r < n {
                assert(init[r] == rows[r]);
            }
        }
        assert forall|r: int, p: int|
            0 <= r < rows.len() && 0 <= p < split_on(rows[r].last(), ',').len() implies forms[suffixes_before(
            rows,
            r,
        ) + p] == stem + #[trigger] split_on(rows[r].last(), ',')[p] by {
            if r < n {
                assert(init[r] == rows[r]);
                lemma_suffixes_before_prefix(rows, n, r);
                lemma_suffixes_before_prefix(rows, n, r + 1);
                lemma_suffixes_before_monotone(init, r + 1, n);
                lemma_suffixes_before_monotone(rows, 0, r);
                let k = suffixes_before(rows, r) + p;
                assert(suffixes_before(init, r + 1) == suffixes_before(init, r) + split_on(
                    init[r].last(),
                    ',',
                ).len());
                assert(k < prev.len());
                assert(forms[k] == prev[k]);
                assert(prev[k] == stem + split_on(init[r].last(), ',')[p]);
            } else {
                assert(rows[r] == rows.last());
                assert(forms[prev.len() + p] == prefixed(stem, pieces)[p]);
            }
        }
    }
}

/// More rows list at least as many suffixes.
proof fn lemma_suffixes_before_monotone(rows: Seq<Seq<Seq<char>>>, r: int, n: int)
    requires
        0 <= r <= n <= rows.len(),
    ensures
        suffixes_before(rows, r) <= suffixes_before(rows, n),
    decreases n - r,
{
    if r < n {
        lemma_suffixes_before_monotone(rows, r + 1, n);
    }
}

/// The forms a suffix table gives are complete and in order: when reading
/// it succeeds, every row of the last result set has cells, the forms are
/// exactly as many as the suffixes the rows' last cells list, and row `r`'s
/// suffix `p` appears, joined to the stem, at place
/// `suffixes_before(rows, r) + p`.
pub proof fn lemma_forms_list_every_suffix(
    stem: Seq<char>,
    pattern: Seq<char>,
    tables: QueryTables,
    forms: Seq<Seq<char>>,
)
    requires
        inflections_from_suffix_tables(stem, pattern, tables) == Ok::<Seq<Seq<char>>, Seq<char>>(forms),
    ensures
        tables.len() > 0,
        forall|r: int| 0 <= r < tables.last().len() ==> (#[trigger] tables.last()[r]).len() > 0,
        forms.len() == suffixes_before(tables.last(), tables.last().len() as int),
        forall|r: int, p: int|
            0 <= r < tables.last().len() && 0 <= p < split_on(tables.last()[r].last(), ',').len()
                ==> forms[suffixes_before(tables.last(), r) + p] == stem + #[trigger] split_on(
                tables.last()[r].last(),
                ',',
            )[p],
{
    lemma_rows_list_every_suffix(stem, tables.last(), forms);
}

/// Rows that cannot be read hold a row without cells.
proof fn lemma_unreadable_rows_have_an_empty_row(stem: Seq<char>, rows: Seq<Seq<Seq<char>>>)
    requires
        inflections_from_rows(stem, rows) is None,
    ensures
        exists|r: int| 0 <= r < rows.len() && (#[trigger] rows[r]).len() == 0,
    decreases rows.len(),
{
    let init = rows.drop_last();
    if inflections_from_rows(stem, init) is None {
        lemma_unreadable_rows_have_an_empty_row(stem, init);
        let r = choose|r: int| 0 <= r < init.len() && (#[trigger] init[r]).len() == 0;
        assert(rows[r] == init[r]);
    } else {
        assert(rows[rows.len() - 1].len() == 0);
    }
}

/// Reading a suffix table fails, with "No pattern found for" and the
/// pattern, exactly when there is no result set or a row of the last one has
/// no cells.
pub proof fn lemma_suffix_table_errors(
    stem: Seq<char>,
    pattern: Seq<char>,
    tables: QueryTables,
)
    ensures
        inflections_from_suffix_tables(stem, pattern, tables) is Err <==> (tables.len() == 0
            || exists|r: int| 0 <= r < tables.last().len() && (#[trigger] tables.last()[r]).len() == 0),
        inflections_from_suffix_tables(stem, pattern, tables) matches Err(e) ==> e
            == "No pattern found for "@ + pattern,
{
    if tables.len() > 0 {
        let rows = tables.last();
        match inflections_from_rows(stem, rows) {
            None => {
                lemma_unreadable_rows_have_an_empty_row(stem, rows);
            },
            Some(forms) => {
                lemma_rows_list_every_suffix(stem, rows, forms);
            },
        }
    }
}

/// What reading a pattern's suffix table from the host gives: some answer
/// the host gave to `Select * from` and the pattern; its error as it stands,
/// or the forms that answer's tables give.
pub proof fn lemma_suffix_forms_read_the_host_answer<'a, H: PlsInflectionsHost<'a> + ?Sized>(
    host: &H,
    stem: Seq<char>,
    pattern: Seq<char>,
    forms: Result<Seq<Seq<char>>, Seq<char>>,
)
    requires
        suffix_forms_from_host(host, stem, pattern, forms),
    ensures
        exists|answer: Result<QueryTables, Seq<char>>|
            #[trigger] host_answered(host, "Select * from "@ + pattern, answer) && match answer {
                Err(e) => forms == Err::<Seq<Seq<char>>, Seq<char>>(e),
                Ok(tables) => forms == inflections_from_suffix_tables(stem, pattern, tables),
            },
{
    let db = choose|db: SqlAnswers|
        forms == #[trigger] suffix_inflections_outcome(stem, pattern, db) && suffix_query_asked(
            host,
            pattern,
            db,
        );
    let q = suffix_query_text(pattern);
    assert(host_answered(host, "Select * from "@ + pattern, db(q)));
}

/// Every form of a headword, step by step: a lookup of the headword from the
/// host; its error as it stands; for an indeclinable (stem `-`) the one form
/// the regex ` \d+$` leaves of the headword (or the regex crate's message);
/// otherwise the forms read from the host's suffix table for the looked-up
/// stem and the pattern with its spaces as underscores.
pub proof fn lemma_all_forms_steps<'a, H: PlsInflectionsHost<'a> + ?Sized>(
    host: &H,
    pali1: Seq<char>,
    forms: Result<Seq<Seq<char>>, Seq<char>>,
)
    requires
        all_forms_from_host(host, pali1, forms),
    ensures
        exists|md: Result<Pali1MetadataView, Seq<char>>|
            #[trigger] metadata_from_host(host, pali1, md) && match md {
                Err(e) => forms == Err::<Seq<Seq<char>>, Seq<char>>(e),
                Ok(pm) => if pm.stem == "-"@ {
                    forms == match crate::outside::regex_build_error(
                        seq![' ', '\\', 'd', '+', '$'],
                    ) {
                        None => Ok(
                            seq![
                                crate::outside::regex_replace_first(
                                    seq![' ', '\\', 'd', '+', '$'],
                                    pali1,
                                    Seq::<char>::empty(),
                                ),
                            ],
                        ),
                        Some(e) => Err(e),
                    }
                } else {
                    suffix_forms_from_host(host, pm.stem, replace_char(pm.pattern, ' ', '_'), forms)
                },
            },
{
    let (db, tr) = choose|db: SqlAnswers, tr: Transliterations|
        forms == #[trigger] all_inflections_outcome(pali1, db, tr) && all_inflections_asked(
            host,
            pali1,
            db,
            tr,
        );
    let md = pali1_metadata_outcome(pali1, db, tr);
    assert(metadata_from_host(host, pali1, md));
    assert(crate::metadata::homonym_number_pattern() =~= seq![' ', '\\', 'd', '+', '$']);
    if let Ok(pm) = md {
        if pm.stem != "-"@ {
            lemma_all_inflections_regular_or_indeclinable(pali1, db, tr, pm);
            let table = replace_char(pm.pattern, ' ', '_');
            assert(suffix_inflections_outcome(pm.stem, table, db) == forms);
        }
    }
}

/// The suffixes a `get_inflections` answer lists, split at commas: the one
/// cell of its one row of its one result set; the error message when the
/// query failed; one empty suffix for an answer of any other shape.
pub open spec fn listed_suffixes(answer: Result<QueryTables, Seq<char>>) -> Seq<Seq<char>> {
    match answer {
        Ok(t) => if t.len() == 1 && t[0].len() == 1 && t[0][0].len() == 1 {
            split_on(t[0][0][0], ',')
        } else {
            seq![Seq::<char>::empty()]
        },
        Err(e) => split_on(e, ','),
    }
}

/// `s` shows `suffix` after `stem`: nothing when the suffix is empty, and
/// otherwise what the host returned when asked to transliterate the stem
/// followed by the suffix (its message if that failed).
pub open spec fn shows_suffix<'a, H: PlsInflectionsHost<'a> + ?Sized>(
    host: &H,
    stem: Seq<char>,
    suffix: Seq<char>,
    s: Seq<char>,
) -> bool {
    if suffix.len() == 0 {
        s == Seq::<char>::empty()
    } else {
        exists|t: Result<Seq<char>, Seq<char>>|
            #[trigger] host_transliterated(host, stem + suffix, t) && s == match t {
                Ok(x) => x,
                Err(x) => x,
            }
    }
}

/// The forms `get_inflections` shows are the suffixes the host's answer to
/// `sql` lists (`listed_suffixes`): each shows as nothing when empty, and
/// otherwise as what the host returned when asked to transliterate the stem
/// followed by it (its message if that failed); the forms are these, each
/// once, reordered.
pub proof fn lemma_inflections_show_the_answer<'a, H: PlsInflectionsHost<'a> + ?Sized, F: Fn(
    &String,
    &String,
) -> i32>(
    host: &H,
    stem: Seq<char>,
    sql: Seq<char>,
    compare: F,
    answer: Result<QueryTables, Seq<char>>,
    shown: Seq<String>,
    origin: Seq<int>,
    forms: Seq<String>,
)
    requires
        inflections_shown(host, stem, sql, compare, answer, shown, origin, forms),
    ensures
        host_answered(host, sql, answer),
        shown.len() == listed_suffixes(answer).len(),
        forall|k: int|
            #![trigger shown[k]]
            0 <= k < shown.len() ==> shows_suffix(host, stem, listed_suffixes(answer)[k], shown[k]@),
        forms.len() == shown.len(),
        crate::ordering::is_permutation(origin, shown.len() as int),
        forall|k: int| 0 <= k < forms.len() ==> forms[k] == shown[#[trigger] origin[k]],
{
    let suffixes = split_on(inflection_list_text(answer), ',');
    assert(split_on(Seq::<char>::empty(), ',') =~= seq![Seq::<char>::empty()]);
    assert(listed_suffixes(answer) == suffixes);
    assert forall|k: int|
        #![trigger shown[k]]
        0 <= k < shown.len() implies shows_suffix(host, stem, listed_suffixes(answer)[k], shown[k]@) by {
        assert(shown_by_host(host, stem, suffixes[k], shown[k]@));
        let suffix = listed_suffixes(answer)[k];
        if suffix.len() > 0 {
            let t = choose|t: Result<Seq<char>, Seq<char>>|
                #[trigger] host_transliterated(host, stem + suffix, t) && shown[k]@ == either_text(t);
            assert(host_transliterated(host, stem + suffix, t));
        }
    }
}

} // verus!
