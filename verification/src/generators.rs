//! Choosing the table that draws a word's inflections.

use vstd::prelude::*;
use crate::metadata::{InflectionClass, Pali1Metadata, Pali1MetadataView};
use crate::inflections::get_table_name_from_pattern;
use crate::text::replace_char;

verus! {

/// The table drawings: one for verbs, one for nouns and adjectives, and one
/// for each kind of pronoun.
#[derive(Debug, Clone, Copy, PartialEq, Eq, Structural)]
pub enum TableGenerator {
    Conjugation,
    Declension,
    DeclensionPron1st,
    DeclensionPron2nd,
    DeclensionPronDual,
}

/// The drawing for a class; an indeclinable has none.
pub open spec fn generator_for(class: InflectionClass) -> Option<TableGenerator> {
    match class {
        InflectionClass::Indeclinable => None,
        InflectionClass::Conjugation => Some(TableGenerator::Conjugation),
        InflectionClass::Declension => Some(TableGenerator::Declension),
        InflectionClass::DeclensionPron1st => Some(TableGenerator::DeclensionPron1st),
        InflectionClass::DeclensionPron2nd => Some(TableGenerator::DeclensionPron2nd),
        InflectionClass::DeclensionPronDual => Some(TableGenerator::DeclensionPronDual),
    }
}

/// `body` is what drawing a word's table gives: nothing for an indeclinable,
/// else what `generate` returns for the class's drawing, the pattern's table
/// name (spaces turned into underscores) and the stem.
pub open spec fn body_drawn<F: Fn(TableGenerator, &str, &str) -> Result<String, String>>(
    pm: Pali1MetadataView,
    body: Result<String, String>,
    generate: F,
) -> bool {
    match generator_for(pm.inflection_class) {
        None => body matches Ok(b) && b@ == Seq::<char>::empty(),
        Some(g) => exists|table: &str, stem: &str|
            table@ == replace_char(pm.pattern, ' ', '_') && stem@ == pm.stem && #[trigger] call_ensures(
                generate,
                (g, table, stem),
                body,
            ),
    }
}

/// The HTML body of a word's inflection table: `generate` draws it with the
/// drawing the word's class calls for, from the pattern's table name
/// (spaces turned into underscores) and the word's stem. An indeclinable
/// has no table, and its body is empty.
pub fn create_html_body<F>(pm: &Pali1Metadata, generate: F) -> (res: Result<String, String>) where
    F: Fn(TableGenerator, &str, &str) -> Result<String, String>,

    requires
        forall|g: TableGenerator, table: &str, stem: &str| call_requires(generate, (g, table, stem)),
    ensures
        body_drawn(pm@, res, generate),
{
    let table_name = get_table_name_from_pattern(pm.pattern.as_str());
    let g = match pm.inflection_class {
        InflectionClass::Indeclinable => {
            return Ok(String::new());
        },
        InflectionClass::Conjugation => TableGenerator::Conjugation,
        InflectionClass::Declension => TableGenerator::Declension,
        InflectionClass::DeclensionPron1st => TableGenerator::DeclensionPron1st,
        InflectionClass::DeclensionPron2nd => TableGenerator::DeclensionPron2nd,
        InflectionClass::DeclensionPronDual => TableGenerator::DeclensionPronDual,
    };
    let table = table_name.as_str();
    let stem = pm.stem.as_str();
    let res = generate(g, table, stem);
    assert(call_ensures(generate, (g, table, stem), res));
    res
}

/// A word's table body: empty for an indeclinable; otherwise what
/// `generate` returned for the drawing its class calls for (verbs the
/// conjugation, the three pronoun classes their own, every other class the
/// declension), a table name that is the pattern with every space turned
/// into `_`, and the stem.
pub proof fn lemma_body_uses_class_drawing<F: Fn(TableGenerator, &str, &str) -> Result<String, String>>(
    pm: Pali1MetadataView,
    body: Result<String, String>,
    generate: F,
)
    requires
        body_drawn(pm, body, generate),
    ensures
        pm.inflection_class == InflectionClass::Indeclinable ==> (body matches Ok(b) && b@
            == Seq::<char>::empty()),
        pm.inflection_class != InflectionClass::Indeclinable ==> exists|
            g: TableGenerator,
            table: &str,
            stem: &str,
        |
            #[trigger] call_ensures(generate, (g, table, stem), body) && stem@ == pm.stem
                && table@.len() == pm.pattern.len() && (forall|k: int|
                0 <= k < table@.len() ==> table@[k] == if pm.pattern[k] == ' ' {
                    '_'
                } else {
                    pm.pattern[k]
                }) && (pm.inflection_class == InflectionClass::Conjugation ==> g
                == TableGenerator::Conjugation) && (pm.inflection_class
                == InflectionClass::Declension ==> g == TableGenerator::Declension) && (
            pm.inflection_class == InflectionClass::DeclensionPron1st ==> g
                == TableGenerator::DeclensionPron1st) && (pm.inflection_class
                == InflectionClass::DeclensionPron2nd ==> g == TableGenerator::DeclensionPron2nd) && (
            pm.inflection_class == InflectionClass::DeclensionPronDual ==> g
                == TableGenerator::DeclensionPronDual),
{
    if let Some(g) = generator_for(pm.inflection_class) {
        let (table, stem) = choose|table: &str, stem: &str|
            table@ == replace_char(pm.pattern, ' ', '_') && stem@ == pm.stem && #[trigger] call_ensures(
                generate,
                (g, table, stem),
                body,
            );
        assert(call_ensures(generate, (g, table, stem), body));
    }
}

} // verus!
