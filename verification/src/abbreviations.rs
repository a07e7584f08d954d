//! Abbreviations (of grammatical terms) and what they read as in a locale.

use vstd::prelude::*;
use crate::host::{
    PlsInflectionsHost, QueryTables, SqlAnswers, answer_view, host_answered, host_locale,
    lemma_host_answered, result_view,
};
use crate::text::text_equals;

verus! {

/// The map that inserting `pairs` in order builds: a later pair for a key
/// replaces an earlier one.
pub open spec fn pairs_to_map(pairs: Seq<(Seq<char>, Seq<char>)>) -> Map<Seq<char>, Seq<char>>
    decreases pairs.len(),
{
    if pairs.len() == 0 {
        Map::<Seq<char>, Seq<char>>::empty()
    } else {
        pairs_to_map(pairs.drop_last()).insert(pairs.last().0, pairs.last().1)
    }
}

/// No key occurs in two pairs.
pub open spec fn keys_distinct(pairs: Seq<(Seq<char>, Seq<char>)>) -> bool {
    forall|i: int, j: int| 0 <= i < j < pairs.len() ==> pairs[i].0 != pairs[j].0
}

/// A key is in the map exactly when some pair holds it.
pub proof fn lemma_pairs_to_map_keys(pairs: Seq<(Seq<char>, Seq<char>)>, k: Seq<char>)
    ensures
        pairs_to_map(pairs).contains_key(k) <==> exists|i: int|
            0 <= i < pairs.len() && (#[trigger] pairs[i]).0 == k,
    decreases pairs.len(),
{
    if pairs.len() > 0 {
        lemma_pairs_to_map_keys(pairs.drop_last(), k);
        if pairs_to_map(pairs.drop_last()).contains_key(k) {
            let i = choose|i: int| 0 <= i < pairs.drop_last().len() && (#[trigger] pairs.drop_last()[i]).0 == k;
            assert(pairs[i] == pairs.drop_last()[i]);
        }
        if exists|i: int| 0 <= i < pairs.len() && (#[trigger] pairs[i]).0 == k {
            let i = choose|i: int| 0 <= i < pairs.len() && (#[trigger] pairs[i]).0 == k;
            if i < pairs.len() - 1 {
                assert(pairs.drop_last()[i] == pairs[i]);
            }
        }
    }
}

/// With distinct keys, a key maps to the value of the one pair that holds it.
pub proof fn lemma_pairs_to_map_value(pairs: Seq<(Seq<char>, Seq<char>)>, i: int)
    requires
        keys_distinct(pairs),
        0 <= i < pairs.len(),
    ensures
        pairs_to_map(pairs).contains_key(pairs[i].0),
        pairs_to_map(pairs)[pairs[i].0] == pairs[i].1,
    decreases pairs.len(),
{
    if i < pairs.len() - 1 {
        assert(pairs.drop_last()[i] == pairs[i]);
        lemma_pairs_to_map_value(pairs.drop_last(), i);
    }
}

/// With distinct keys, replacing the value of a pair is inserting into the map.
pub proof fn lemma_pairs_to_map_update(
    pairs: Seq<(Seq<char>, Seq<char>)>,
    i: int,
    v: Seq<char>,
)
    requires
        keys_distinct(pairs),
        0 <= i < pairs.len(),
    ensures
        pairs_to_map(pairs.update(i, (pairs[i].0, v))) =~= pairs_to_map(pairs).insert(pairs[i].0, v),
    decreases pairs.len(),
{
    let k = pairs[i].0;
    let updated = pairs.update(i, (k, v));
    if i == pairs.len() - 1 {
        assert(updated.drop_last() =~= pairs.drop_last());
        lemma_pairs_to_map_keys(pairs.drop_last(), k);
    } else {
        assert(updated.drop_last() =~= pairs.drop_last().update(i, (k, v)));
        lemma_pairs_to_map_update(pairs.drop_last(), i, v);
        assert(pairs.last().0 != k);
    }
}

/// Abbreviations and what each reads as, no abbreviation twice. The entries
/// are kept as a list of distinct pairs: vstd models a `HashMap`'s contents
/// only for keys whose hashing it knows (`obeys_key_model`), and `String` is
/// not among them.
pub struct AbbreviationMap {
    entries: Vec<(String, String)>,
}

impl AbbreviationMap {
    /// The entries by their characters.
    pub closed spec fn pairs(&self) -> Seq<(Seq<char>, Seq<char>)> {
        self.entries.deep_view()
    }

    #[verifier::type_invariant]
    closed spec fn keys_are_distinct(&self) -> bool {
        keys_distinct(self.entries.deep_view())
    }
}

impl View for AbbreviationMap {
    type V = Map<Seq<char>, Seq<char>>;

    closed spec fn view(&self) -> Map<Seq<char>, Seq<char>> {
        pairs_to_map(self.entries.deep_view())
    }
}

impl AbbreviationMap {
    /// A map without abbreviations.
    pub fn new() -> (m: Self)
        ensures
            m@ == Map::<Seq<char>, Seq<char>>::empty(),
    {
        let m = AbbreviationMap { entries: Vec::new() };
        assert(m.entries.deep_view() =~= Seq::<(Seq<char>, Seq<char>)>::empty());
        m
    }

    /// Where `key` stands among the entries.
    fn position(&self, key: &str) -> (p: Option<usize>)
        ensures
            match p {
                Some(i) => i < self.entries.len() && self.entries.deep_view()[i as int].0 == key@,
                None => forall|i: int|
                    0 <= i < self.entries.len() ==> (#[trigger] self.entries.deep_view()[i]).0
                        != key@,
            },
    {
        let mut i: usize = 0;
        while i < self.entries.len()
            invariant
                i <= self.entries.len(),
                forall|j: int|
                    0 <= j < i ==> (#[trigger] self.entries.deep_view()[j]).0 != key@,
            decreases self.entries.len() - i,
        {
            assert(self.entries.deep_view()[i as int].0 == self.entries[i as int].0@);
            if text_equals(self.entries[i].0.as_str(), key) {
                return Some(i);
            }
            i = i + 1;
        }
        None
    }

    /// Gives `key` the reading `value`, replacing any it had.
    pub fn insert(&mut self, key: String, value: String)
        ensures
            final(self)@ == old(self)@.insert(key@, value@),
    {
        proof {
            use_type_invariant(&*self);
        }
        let ghost before = self.entries.deep_view();
        let found = self.position(key.as_str());
        let mut entries: Vec<(String, String)> = Vec::new();
        std::mem::swap(&mut entries, &mut self.entries);
        let ghost kv = key@;
        let ghost vv = value@;
        match found {
            Some(i) => {
                entries.set(i, (key, value));
                proof {
                    assert(entries.deep_view() =~= before.update(i as int, (kv, vv)));
                    lemma_pairs_to_map_update(before, i as int, vv);
                }
            },
            None => {
                entries.push((key, value));
                proof {
                    assert(entries.deep_view() =~= before.push((kv, vv)));
                    assert(entries.deep_view().drop_last() =~= before);
                }
            },
        }
        self.entries = entries;
    }

    /// Every abbreviation with its reading, each abbreviation once.
    pub fn entries(&self) -> (entries: &Vec<(String, String)>)
        ensures
            keys_distinct(entries.deep_view()),
            pairs_to_map(entries.deep_view()) == self@,
    {
        proof {
            use_type_invariant(self);
        }
        &self.entries
    }

    /// The reading of `key`, if it has one.
    pub fn get(&self, key: &str) -> (r: Option<&String>)
        ensures
            match r {
                Some(v) => self@.contains_key(key@) && v@ == self@[key@],
                None => !self@.contains_key(key@),
            },
    {
        proof {
            use_type_invariant(self);
        }
        match self.position(key) {
            Some(i) => {
                proof {
                    lemma_pairs_to_map_value(self.entries.deep_view(), i as int);
                }
                Some(&self.entries[i].1)
            },
            None => {
                proof {
                    lemma_pairs_to_map_keys(self.entries.deep_view(), key@);
                }
                None
            },
        }
    }
}


/// The SQL text that reads the abbreviations with their readings in a
/// locale: `xx` marks each abbreviation as `^name$`, `en` reads it as
/// itself, and any other locale reads the column named after it.
pub open spec fn abbreviations_query_text(locale: Seq<char>) -> Seq<char> {
    if locale == "xx"@ {
        "select name, description, '^' || name || '$' from _abbreviations"@
    } else if locale == "en"@ {
        "select name, description, name from _abbreviations"@
    } else {
        "select name, description, "@ + locale + " from _abbreviations"@
    }
}

/// The SQL text that reads the abbreviations with their readings in a locale.
pub fn abbreviations_query(locale: &str) -> (sql: String)
    ensures
        sql@ == abbreviations_query_text(locale@),
{
    if text_equals(locale, "xx") {
        String::from_str("select name, description, '^' || name || '$' from _abbreviations")
    } else if text_equals(locale, "en") {
        String::from_str("select name, description, name from _abbreviations")
    } else {
        let mut sql = String::from_str("select name, description, ");
        sql.append(locale);
        sql.append(" from _abbreviations");
        sql
    }
}

/// The insertions that abbreviation rows call for, in order: each row's
/// name, then its description, read as the row's third cell.
pub open spec fn abbreviation_pairs(rows: Seq<Seq<Seq<char>>>) -> Seq<(Seq<char>, Seq<char>)>
    decreases rows.len(),
{
    if rows.len() == 0 {
        Seq::<(Seq<char>, Seq<char>)>::empty()
    } else {
        let row = rows.last();
        abbreviation_pairs(rows.drop_last()) + seq![(row[0], row[2]), (row[1], row[2])]
    }
}

/// The error for an abbreviations answer without a first result set of rows
/// of at least three cells.
pub open spec fn abbreviations_missing_text(locale: Seq<char>) -> Seq<char> {
    "Abbreviations not found for locale '"@ + locale + "'."@
}

/// The abbreviations an answer gives: every row of its first result set
/// maps its name and its description to its third cell.
pub open spec fn abbreviations_from_tables(locale: Seq<char>, tables: QueryTables) -> Result<
    Map<Seq<char>, Seq<char>>,
    Seq<char>,
> {
    if tables.len() >= 1 && forall|i: int| 0 <= i < tables[0].len() ==> (#[trigger] tables[0][i]).len()
        >= 3 {
        Ok(pairs_to_map(abbreviation_pairs(tables[0])))
    } else {
        Err(abbreviations_missing_text(locale))
    }
}

/// Reads the abbreviations an answer to `abbreviations_query` gives.
pub fn abbreviations_from_answer(locale: &str, tables: &Vec<Vec<Vec<String>>>) -> (res: Result<
    AbbreviationMap,
    String,
>)
    ensures
        result_view(res) == abbreviations_from_tables(locale@, tables.deep_view()),
{
    let mut msg = String::from_str("Abbreviations not found for locale '");
    msg.append(locale);
    msg.append("'.");
    if tables.len() == 0 {
        return Err(msg);
    }
    let rows = &tables[0];
    let ghost rv = tables.deep_view()[0];
    assert(rows.deep_view() == rv);
    let mut map = AbbreviationMap::new();
    let mut i: usize = 0;
    assert(rv.take(0) =~= Seq::<Seq<Seq<char>>>::empty());
    while i < rows.len()
        invariant
            rows.deep_view() == rv,
            rv == tables.deep_view()[0],
            tables.deep_view().len() >= 1,
            msg@ == abbreviations_missing_text(locale@),
            i <= rows.len(),
            forall|j: int| 0 <= j < i ==> (#[trigger] rv[j]).len() >= 3,
            map@ == pairs_to_map(abbreviation_pairs(rv.take(i as int))),
        decreases rows.len() - i,
    {
        let row = &rows[i];
        assert(row.deep_view() == rv[i as int]);
        if row.len() < 3 {
            assert(!(forall|j: int| 0 <= j < rv.len() ==> (#[trigger] rv[j]).len() >= 3));
            return Err(msg);
        }
        let ghost prev = abbreviation_pairs(rv.take(i as int));
        assert(rv.take(i + 1).drop_last() =~= rv.take(i as int));
        assert(rv.take(i + 1).last() == rv[i as int]);
        let ghost pairs = abbreviation_pairs(rv.take(i + 1));
        assert(pairs == prev + seq![(row[0]@, row[2]@), (row[1]@, row[2]@)]);
        assert(pairs.drop_last() =~= prev.push((row[0]@, row[2]@)));
        assert(pairs.drop_last().drop_last() =~= prev);
        assert(pairs_to_map(pairs.drop_last()) == pairs_to_map(prev).insert(row[0]@, row[2]@));
        assert(pairs_to_map(pairs) == pairs_to_map(pairs.drop_last()).insert(row[1]@, row[2]@));
        map.insert(row[0].clone(), row[2].clone());
        map.insert(row[1].clone(), row[2].clone());
        i = i + 1;
    }
    assert(rv.take(rows.len() as int) =~= rv);
    Ok(map)
}

/// The abbreviations of a host whose locale is `locale` and whose
/// database `db` answers the abbreviations query.
pub open spec fn abbreviations_outcome(locale: Seq<char>, db: SqlAnswers) -> Result<
    Map<Seq<char>, Seq<char>>,
    Seq<char>,
> {
    match db(abbreviations_query_text(locale)) {
        Err(e) => Err(e),
        Ok(tables) => abbreviations_from_tables(locale, tables),
    }
}

/// `res` is what reading the abbreviations gives when the host is asked:
/// the outcome for the locale the host gave and some answers whose answer to
/// the abbreviations query for that locale is the host's.
pub open spec fn abbreviations_from_host<'a, H: PlsInflectionsHost<'a> + ?Sized>(
    host: &H,
    res: Result<Map<Seq<char>, Seq<char>>, Seq<char>>,
) -> bool {
    exists|locale: Seq<char>, db: SqlAnswers|
        res == #[trigger] abbreviations_outcome(locale, db) && host_locale(host, locale)
            && host_answered(host, abbreviations_query_text(locale), db(abbreviations_query_text(locale)))
}

/// The abbreviations and their readings in the host's locale, each
/// abbreviation's name and description both leading to its reading: the
/// host is asked its locale, then the abbreviations query for that locale.
pub fn get_abbreviations_for_locale<'a, H: PlsInflectionsHost<'a> + ?Sized>(host: &H) -> (res: Result<
    AbbreviationMap,
    String,
>)
    ensures
        abbreviations_from_host(host, result_view(res)),
{
    let locale = host.get_locale();
    assert(host_locale(host, locale@));
    let sql = abbreviations_query(locale);
    let q = sql.as_str();
    let answer = host.exec_sql_query(q);
    proof {
        lemma_host_answered(host, q, answer);
    }
    let ghost a = answer_view(answer);
    let ghost db: SqlAnswers = |q: Seq<char>| a;
    let res = match answer {
        Ok(tables) => abbreviations_from_answer(locale, &tables),
        Err(e) => Err(e),
    };
    assert(result_view(res) == abbreviations_outcome(locale@, db));
    res
}

/// The error when the word to localise is not text.
pub open spec fn not_text_error() -> Seq<char> {
    "Error while converting value to str."@
}

/// The error for a word without a reading; `word_text` is how the word is shown.
pub open spec fn no_abbreviation_text(word_text: Seq<char>) -> Seq<char> {
    "Error: abbreviation not found for "@ + word_text
}

/// What localising a word gives: its reading, or an error when it is not
/// text or has no reading.
pub open spec fn localised(
    word: Option<Seq<char>>,
    word_text: Seq<char>,
    abbreviations: Map<Seq<char>, Seq<char>>,
) -> Result<Seq<char>, Seq<char>> {
    match word {
        None => Err(not_text_error()),
        Some(w) => if abbreviations.contains_key(w) {
            Ok(abbreviations[w])
        } else {
            Err(no_abbreviation_text(word_text))
        },
    }
}

/// The reading of an abbreviation in the map. `word` is the word when it is
/// text, and `word_text` how it is shown in the error for a missing reading.
pub fn localise_abbrev(word: Option<&str>, word_text: &str, abbreviations: &AbbreviationMap) -> (res:
    Result<String, String>)
    ensures
        result_view(res) == localised(
            match word {
                Some(w) => Some(w@),
                None => None,
            },
            word_text@,
            abbreviations@,
        ),
{
    match word {
        None => Err(String::from_str("Error while converting value to str.")),
        Some(w) => match abbreviations.get(w) {
            Some(v) => Ok(v.clone()),
            None => {
                let mut msg = String::from_str("Error: abbreviation not found for ");
                msg.append(word_text);
                Err(msg)
            },
        },
    }
}


/// Reading a key right after it was given a reading gives that reading, and
/// every other key keeps what it had.
pub proof fn lemma_read_after_insert(
    m: Map<Seq<char>, Seq<char>>,
    key: Seq<char>,
    value: Seq<char>,
    other: Seq<char>,
)
    ensures
        m.insert(key, value).contains_key(key),
        m.insert(key, value)[key] == value,
        other != key ==> (m.insert(key, value).contains_key(other) == m.contains_key(other)),
        other != key && m.contains_key(other) ==> m.insert(key, value)[other] == m[other],
{
}

/// Abbreviation rows call for two insertions each.
pub proof fn lemma_abbreviation_pairs_len(rows: Seq<Seq<Seq<char>>>)
    ensures
        abbreviation_pairs(rows).len() == 2 * rows.len(),
    decreases rows.len(),
{
    if rows.len() > 0 {
        lemma_abbreviation_pairs_len(rows.drop_last());
    }
}

/// Each row calls for two insertions: its name, then its description, both
/// read as its third cell.
pub proof fn lemma_abbreviation_pairs_of_row(rows: Seq<Seq<Seq<char>>>, i: int)
    requires
        0 <= i < rows.len(),
    ensures
        abbreviation_pairs(rows).len() == 2 * rows.len(),
        abbreviation_pairs(rows)[2 * i] == (rows[i][0], rows[i][2]),
        abbreviation_pairs(rows)[2 * i + 1] == (rows[i][1], rows[i][2]),
    decreases rows.len(),
{
    lemma_abbreviation_pairs_len(rows);
    lemma_abbreviation_pairs_len(rows.drop_last());
    let prev = abbreviation_pairs(rows.drop_last());
    let row = rows.last();
    let tail = seq![(row[0], row[2]), (row[1], row[2])];
    assert(abbreviation_pairs(rows) == prev + tail);
    if i < rows.len() - 1 {
        lemma_abbreviation_pairs_of_row(rows.drop_last(), i);
        assert(rows.drop_last()[i] == rows[i]);
        assert((prev + tail)[2 * i] == prev[2 * i]);
        assert((prev + tail)[2 * i + 1] == prev[2 * i + 1]);
    } else {
        assert((prev + tail)[2 * i] == tail[0]);
        assert((prev + tail)[2 * i + 1] == tail[1]);
    }
}

/// Every abbreviation the database lists can be localised: the name and the
/// description of each row have a reading, and the last row's name and
/// description read as its third cell.
pub proof fn lemma_listed_abbreviations_localise(
    locale: Seq<char>,
    tables: QueryTables,
    m: Map<Seq<char>, Seq<char>>,
    i: int,
    word_text: Seq<char>,
)
    requires
        abbreviations_from_tables(locale, tables) == Ok::<Map<Seq<char>, Seq<char>>, Seq<char>>(m),
        0 <= i < tables[0].len(),
    ensures
        m.contains_key(tables[0][i][0]),
        m.contains_key(tables[0][i][1]),
        localised(Some(tables[0][i][0]), word_text, m) == Ok::<Seq<char>, Seq<char>>(
            m[tables[0][i][0]],
        ),
        localised(Some(tables[0][i][1]), word_text, m) == Ok::<Seq<char>, Seq<char>>(
            m[tables[0][i][1]],
        ),
        i == tables[0].len() - 1 ==> m[tables[0][i][0]] == tables[0][i][2] && m[tables[0][i][1]]
            == tables[0][i][2],
{
    let rows = tables[0];
    let pairs = abbreviation_pairs(rows);
    lemma_abbreviation_pairs_of_row(rows, i);
    lemma_pairs_to_map_keys(pairs, rows[i][0]);
    lemma_pairs_to_map_keys(pairs, rows[i][1]);
    if i == rows.len() - 1 {
        let last = rows.last();
        assert(pairs == abbreviation_pairs(rows.drop_last()) + seq![(last[0], last[2]), (last[1], last[2])]);
        assert(pairs.drop_last() =~= abbreviation_pairs(rows.drop_last()).push((last[0], last[2])));
        assert(pairs_to_map(pairs) == pairs_to_map(pairs.drop_last()).insert(last[1], last[2]));
        assert(pairs_to_map(pairs.drop_last()) == pairs_to_map(pairs.drop_last().drop_last()).insert(
            last[0],
            last[2],
        ));
    }
}

/// A key of the map that inserting `pairs` builds has the value of the last
/// pair that holds it.
pub proof fn lemma_pairs_to_map_last_pair(pairs: Seq<(Seq<char>, Seq<char>)>, k: Seq<char>)
    requires
        pairs_to_map(pairs).contains_key(k),
    ensures
        exists|i: int|
            0 <= i < pairs.len() && (#[trigger] pairs[i]).0 == k && pairs_to_map(pairs)[k]
                == pairs[i].1 && forall|j: int| i < j < pairs.len() ==> pairs[j].0 != k,
    decreases pairs.len(),
{
    let n = pairs.len() - 1;
    if pairs[n].0 != k {
        let init = pairs.drop_last();
        lemma_pairs_to_map_last_pair(init, k);
        let i = choose|i: int|
            0 <= i < init.len() && (#[trigger] init[i]).0 == k && pairs_to_map(init)[k] == init[i].1
                && forall|j: int| i < j < init.len() ==> init[j].0 != k;
        assert(pairs[i] == init[i]);
        assert forall|j: int| i < j < pairs.len() implies pairs[j].0 != k by {
            if j < n {
                assert(pairs[j] == init[j]);
            }
        }
    }
}

/// A key of the abbreviations that rows give is the name or description of
/// the last row that names or describes it, and reads as its third cell.
proof fn lemma_abbreviation_key_from_row(rows: Seq<Seq<Seq<char>>>, k: Seq<char>)
    requires
        pairs_to_map(abbreviation_pairs(rows)).contains_key(k),
    ensures
        exists|i: int|
            0 <= i < rows.len() && ((#[trigger] rows[i])[0] == k || rows[i][1] == k) && pairs_to_map(
                abbreviation_pairs(rows),
            )[k] == rows[i][2] && forall|j: int|
                i < j < rows.len() ==> rows[j][0] != k && rows[j][1] != k,
{
    let pairs = abbreviation_pairs(rows);
    lemma_abbreviation_pairs_len(rows);
    lemma_pairs_to_map_last_pair(pairs, k);
    let q = choose|q: int|
        0 <= q < pairs.len() && (#[trigger] pairs[q]).0 == k && pairs_to_map(pairs)[k] == pairs[q].1
            && forall|j: int| q < j < pairs.len() ==> pairs[j].0 != k;
    let i = q / 2;
    assert(0 <= i < rows.len());
    lemma_abbreviation_pairs_of_row(rows, i);
    assert(q == 2 * i || q == 2 * i + 1);
    assert forall|j: int| i < j < rows.len() implies rows[j][0] != k && rows[j][1] != k by {
        lemma_abbreviation_pairs_of_row(rows, j);
        assert(pairs[2 * j].0 != k);
        assert(pairs[2 * j + 1].0 != k);
    }
    if q == 2 * i {
        assert(rows[i][0] == k);
    } else {
        assert(rows[i][1] == k);
    }
}

/// Every row leads to a reading: its name and its description are keys of
/// the map read from the rows.
pub proof fn lemma_abbreviation_rows_are_keys(
    locale: Seq<char>,
    tables: QueryTables,
    m: Map<Seq<char>, Seq<char>>,
)
    requires
        abbreviations_from_tables(locale, tables) == Ok::<Map<Seq<char>, Seq<char>>, Seq<char>>(m),
    ensures
        forall|i: int|
            0 <= i < tables[0].len() ==> m.contains_key((#[trigger] tables[0][i])[0])
                && m.contains_key(tables[0][i][1]),
{
    assert forall|i: int| 0 <= i < tables[0].len() implies m.contains_key(
        (#[trigger] tables[0][i])[0],
    ) && m.contains_key(tables[0][i][1]) by {
        lemma_listed_abbreviations_localise(locale, tables, m, i, Seq::<char>::empty());
    }
}

/// Every key of the map read from rows is the name or description of a row
/// and reads as that row's third cell, taking the last row that names or
/// describes it.
pub proof fn lemma_abbreviation_keys_come_from_rows(
    locale: Seq<char>,
    tables: QueryTables,
    m: Map<Seq<char>, Seq<char>>,
)
    requires
        abbreviations_from_tables(locale, tables) == Ok::<Map<Seq<char>, Seq<char>>, Seq<char>>(m),
    ensures
        forall|k: Seq<char>|
            #[trigger] m.contains_key(k) ==> exists|i: int|
                0 <= i < tables[0].len() && ((#[trigger] tables[0][i])[0] == k || tables[0][i][1]
                    == k) && m[k] == tables[0][i][2] && forall|j: int|
                    i < j < tables[0].len() ==> tables[0][j][0] != k && tables[0][j][1] != k,
{
    assert forall|k: Seq<char>| #[trigger] m.contains_key(k) implies exists|i: int|
        0 <= i < tables[0].len() && ((#[trigger] tables[0][i])[0] == k || tables[0][i][1] == k)
            && m[k] == tables[0][i][2] && forall|j: int|
            i < j < tables[0].len() ==> tables[0][j][0] != k && tables[0][j][1] != k by {
        lemma_abbreviation_key_from_row(tables[0], k);
    }
}

/// Reading abbreviations succeeds exactly when there is a first result set
/// whose rows all have at least three cells, and fails with "Abbreviations
/// not found for locale" and the locale otherwise.
pub proof fn lemma_abbreviations_need_full_rows(locale: Seq<char>, tables: QueryTables)
    ensures
        abbreviations_from_tables(locale, tables) is Ok <==> (tables.len() >= 1 && forall|i: int|
            0 <= i < tables[0].len() ==> (#[trigger] tables[0][i]).len() >= 3),
        abbreviations_from_tables(locale, tables) matches Err(e) ==> e
            == "Abbreviations not found for locale '"@ + locale + "'."@,
{
}

/// What reading the abbreviations from the host gives: the locale the host
/// gave; for it, some answer the host gave to the abbreviations query; that
/// answer's error as it stands, or the abbreviations its tables give.
pub proof fn lemma_abbreviations_read_the_host_answer<'a, H: PlsInflectionsHost<'a> + ?Sized>(
    host: &H,
    res: Result<Map<Seq<char>, Seq<char>>, Seq<char>>,
)
    requires
        abbreviations_from_host(host, res),
    ensures
        exists|locale: Seq<char>, answer: Result<QueryTables, Seq<char>>|
            host_locale(host, locale) && #[trigger] host_answered(
                host,
                abbreviations_query_text(locale),
                answer,
            ) && match answer {
                Err(e) => res == Err::<Map<Seq<char>, Seq<char>>, Seq<char>>(e),
                Ok(tables) => res == abbreviations_from_tables(locale, tables),
            },
{
    let (locale, db) = choose|locale: Seq<char>, db: SqlAnswers|
        res == #[trigger] abbreviations_outcome(locale, db) && host_locale(host, locale)
            && host_answered(host, abbreviations_query_text(locale), db(abbreviations_query_text(locale)));
    assert(host_answered(host, abbreviations_query_text(locale), db(abbreviations_query_text(locale))));
}

/// Localising gives the word's reading in the map when the word is text
/// with a reading; otherwise it fails, with "Error while converting value to
/// str." for a word that is not text and "Error: abbreviation not found for"
/// and the word as shown for text without a reading.
pub proof fn lemma_localising(
    word: Option<Seq<char>>,
    word_text: Seq<char>,
    abbreviations: Map<Seq<char>, Seq<char>>,
)
    ensures
        localised(word, word_text, abbreviations) matches Ok(r) ==> word matches Some(w)
            && abbreviations.contains_key(w) && r == abbreviations[w],
        localised(word, word_text, abbreviations) matches Err(e) ==> (word is None && e
            == "Error while converting value to str."@) || (word matches Some(w)
            && !abbreviations.contains_key(w) && e == "Error: abbreviation not found for "@
            + word_text),
        word matches Some(w) && abbreviations.contains_key(w) ==> localised(
            word,
            word_text,
            abbreviations,
        ) is Ok,
{
}

} // verus!
