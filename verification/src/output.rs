//! What an inflection table page shows besides the table itself.

use vstd::prelude::*;
use crate::generators::{TableGenerator, body_drawn, create_html_body, generator_for};
use crate::text::replace_char;
use crate::host::{
    PlsInflectionsHost, SqlAnswers, Transliterations, host_one_way, host_transliterated,
    lemma_host_transliterated, result_view, transliterates_one_way,
};
use crate::metadata::{
    InflectionClass, Pali1Metadata, Pali1MetadataView, get_pali1_metadata, lemma_lookups_agree,
    metadata_asked, metadata_from_host, pali1_metadata_outcome,
};

verus! {

/// Where readers report mistakes in a verb's table.
pub open spec fn conjugation_feedback_url() -> Seq<char> {
    "https://docs.google.com/forms/d/e/1FAIpQLSeJpx7TsISkYEXzxvbBtOH25T-ZO1Z5NFdujO5SD9qcAH_i1A/viewform"@
}

/// Where readers report mistakes in any declension table.
pub open spec fn declension_feedback_url() -> Seq<char> {
    "https://docs.google.com/forms/d/e/1FAIpQLSeoxZiqvIWadaLeuXF4f44NCqEn49-B8KNbSvNer5jxgRYdtQ/viewform"@
}

/// The feedback form for a class: the verb form for conjugations, the
/// declension form for every other class.
pub open spec fn feedback_url_for(class: InflectionClass) -> Seq<char> {
    if class == InflectionClass::Conjugation {
        conjugation_feedback_url()
    } else {
        declension_feedback_url()
    }
}

/// The feedback form for a class.
pub fn feedback_form_url(class: InflectionClass) -> (url: &'static str)
    ensures
        url@ == feedback_url_for(class),
{
    match class {
        InflectionClass::Conjugation => {
            "https://docs.google.com/forms/d/e/1FAIpQLSeJpx7TsISkYEXzxvbBtOH25T-ZO1Z5NFdujO5SD9qcAH_i1A/viewform"
        },
        _ => {
            "https://docs.google.com/forms/d/e/1FAIpQLSeoxZiqvIWadaLeuXF4f44NCqEn49-B8KNbSvNer5jxgRYdtQ/viewform"
        },
    }
}

/// Everything an inflection table page is filled with.
pub struct OutputViewModel {
    pub pali1: String,
    pub pattern: String,
    pub like: String,
    pub pos: String,
    pub meaning: String,
    pub body: String,
    pub feedback_form_url: String,
    pub host_url: String,
    pub host_version: String,
}

/// `OutputViewModel` with every text taken by its characters.
pub struct OutputViewModelView {
    pub pali1: Seq<char>,
    pub pattern: Seq<char>,
    pub like: Seq<char>,
    pub pos: Seq<char>,
    pub meaning: Seq<char>,
    pub body: Seq<char>,
    pub feedback_form_url: Seq<char>,
    pub host_url: Seq<char>,
    pub host_version: Seq<char>,
}

impl View for OutputViewModel {
    type V = OutputViewModelView;

    open spec fn view(&self) -> OutputViewModelView {
        OutputViewModelView {
            pali1: self.pali1@,
            pattern: self.pattern@,
            like: self.like@,
            pos: self.pos@,
            meaning: self.meaning@,
            body: self.body@,
            feedback_form_url: self.feedback_form_url@,
            host_url: self.host_url@,
            host_version: self.host_version@,
        }
    }
}

/// The page of a word: its transliterated headword, its metadata, the
/// table's body, the feedback form for its class and the host's URL and version.
pub open spec fn page_of(
    pm: Pali1MetadataView,
    pali1_transliterated: Seq<char>,
    body: Seq<char>,
    host_url: Seq<char>,
    host_version: Seq<char>,
) -> OutputViewModelView {
    OutputViewModelView {
        pali1: pali1_transliterated,
        pattern: pm.pattern,
        like: pm.like,
        pos: pm.pos,
        meaning: pm.meaning,
        body: body,
        feedback_form_url: feedback_url_for(pm.inflection_class),
        host_url: host_url,
        host_version: host_version,
    }
}

/// The page of a word when `tr` transliterates its headword `pali1` and
/// the host gives its URL and version.
pub open spec fn page_outcome(
    pm: Pali1MetadataView,
    pali1: Seq<char>,
    body: Seq<char>,
    tr: Transliterations,
    host_url: Seq<char>,
    host_version: Seq<char>,
) -> Result<OutputViewModelView, Seq<char>> {
    match tr(pali1) {
        Err(e) => Err(e),
        Ok(t) => Ok(page_of(pm, t, body, host_url, host_version)),
    }
}

/// What filling a page of `pali1` took from the host: `tr`'s transliteration
/// of `pali1` is the host's, and, for a filled page, `url` and `version` are
/// the URL and version the host gave.
pub open spec fn page_asked<'a, H: PlsInflectionsHost<'a> + ?Sized>(
    host: &H,
    pali1: Seq<char>,
    tr: Transliterations,
    url: Seq<char>,
    version: Seq<char>,
    page: Result<OutputViewModelView, Seq<char>>,
) -> bool {
    &&& host_transliterated(host, pali1, tr(pali1))
    &&& page is Ok ==> crate::host::host_url(host, url) && crate::host::host_version(host, version)
}

/// `page` is what filling the page of `pali1` gives when the host is asked:
/// the page for some transliteration, URL and version that are the host's
/// where they are read (`page_asked`).
pub open spec fn page_from_host<'a, H: PlsInflectionsHost<'a> + ?Sized>(
    host: &H,
    pm: Pali1MetadataView,
    pali1: Seq<char>,
    body: Seq<char>,
    page: Result<OutputViewModelView, Seq<char>>,
) -> bool {
    exists|tr: Transliterations, url: Seq<char>, version: Seq<char>|
        page == #[trigger] page_outcome(pm, pali1, body, tr, url, version) && page_asked(
            host,
            pali1,
            tr,
            url,
            version,
            page,
        )
}

/// A page shows nothing of the looked-up headword or stem: two metadata
/// that differ only there give the same page.
pub proof fn lemma_page_ignores_headword_and_stem(
    pm1: Pali1MetadataView,
    pm2: Pali1MetadataView,
    pali1: Seq<char>,
    body: Seq<char>,
    tr: Transliterations,
    url: Seq<char>,
    version: Seq<char>,
)
    requires
        pm1.pattern == pm2.pattern,
        pm1.like == pm2.like,
        pm1.pos == pm2.pos,
        pm1.meaning == pm2.meaning,
        pm1.inflection_class == pm2.inflection_class,
    ensures
        page_outcome(pm1, pali1, body, tr, url, version) == page_outcome(
            pm2,
            pali1,
            body,
            tr,
            url,
            version,
        ),
{
}

/// Fills a word's page: the host transliterates the headword `pali1` and
/// gives its URL and version.
pub fn output_view_model<'a, H: PlsInflectionsHost<'a> + ?Sized>(
    pm: &Pali1Metadata,
    pali1: &str,
    body: &str,
    host: &H,
) -> (res: Result<OutputViewModel, String>)
    ensures
        page_from_host(host, pm@, pali1@, body@, result_view(res)),
{
    let translit = host.transliterate(pali1);
    proof {
        lemma_host_transliterated(host, pali1, translit);
    }
    let ghost t = result_view(translit);
    let ghost tr: Transliterations = |s: Seq<char>| t;
    let pali1_t = match translit {
        Ok(s) => s,
        Err(e) => {
            assert(result_view::<OutputViewModel>(Err(e)) == page_outcome(
                pm@,
                pali1@,
                body@,
                tr,
                Seq::<char>::empty(),
                Seq::<char>::empty(),
            ));
            return Err(e);
        },
    };
    let url = host.get_url();
    let version = host.get_version();
    assert(crate::host::host_url(host, url@));
    assert(crate::host::host_version(host, version@));
    let host_url = String::from_str(url);
    let host_version = String::from_str(version);
    let vm = OutputViewModel {
        pali1: pali1_t,
        pattern: pm.pattern.clone(),
        like: pm.like.clone(),
        pos: pm.pos.clone(),
        meaning: pm.meaning.clone(),
        body: String::from_str(body),
        feedback_form_url: String::from_str(feedback_form_url(pm.inflection_class)),
        host_url,
        host_version,
    };
    assert(result_view::<OutputViewModel>(Ok(vm)) == page_outcome(
        pm@,
        pali1@,
        body@,
        tr,
        vm.host_url@,
        vm.host_version@,
    ));
    Ok(vm)
}


/// The page of a headword `pali1`, given what its lookup gave, what drawing
/// its table gave, and how the host transliterates and describes itself for
/// the page.
pub open spec fn table_page<F: Fn(TableGenerator, &str, &str) -> Result<String, String>>(
    pali1: Seq<char>,
    metadata: Result<Pali1MetadataView, Seq<char>>,
    body: Result<String, String>,
    generate: F,
    tr: Transliterations,
    host_url: Seq<char>,
    host_version: Seq<char>,
    page: Result<OutputViewModelView, Seq<char>>,
) -> bool {
    match metadata {
        Err(e) => page == Err::<OutputViewModelView, Seq<char>>(e),
        Ok(pm) => body_drawn(pm, body, generate) && page == match body {
            Err(e) => Err(e@),
            Ok(b) => page_outcome(pm, pali1, b@, tr, host_url, host_version),
        },
    }
}

/// What a page built from a lookup's `metadata` and a drawn `body` took from
/// the host, once both succeeded: what `page_asked` says.
pub open spec fn table_page_asked<'a, H: PlsInflectionsHost<'a> + ?Sized>(
    host: &H,
    pali1: Seq<char>,
    metadata: Result<Pali1MetadataView, Seq<char>>,
    body: Result<String, String>,
    tr: Transliterations,
    url: Seq<char>,
    version: Seq<char>,
    page: Result<OutputViewModelView, Seq<char>>,
) -> bool {
    metadata is Ok && body is Ok ==> page_asked(host, pali1, tr, url, version, page)
}

/// `page` is the inflection table page of `pali1` when the host is asked
/// and `generate` draws: its lookup reads the host's answers
/// (`metadata_asked`), its table is drawn by `generate` (`table_page`), and
/// its page filled from the host (`table_page_asked`).
pub open spec fn table_page_from_host<
    'a,
    H: PlsInflectionsHost<'a> + ?Sized,
    F: Fn(TableGenerator, &str, &str) -> Result<String, String>,
>(host: &H, pali1: Seq<char>, generate: F, page: Result<OutputViewModelView, Seq<char>>) -> bool {
    exists|
        db: SqlAnswers,
        tr: Transliterations,
        body: Result<String, String>,
        page_tr: Transliterations,
        host_url: Seq<char>,
        host_version: Seq<char>,
    |
        #[trigger] table_page(
            pali1,
            pali1_metadata_outcome(pali1, db, tr),
            body,
            generate,
            page_tr,
            host_url,
            host_version,
            page,
        ) && metadata_asked(host, pali1, db, tr) && table_page_asked(
            host,
            pali1,
            pali1_metadata_outcome(pali1, db, tr),
            body,
            page_tr,
            host_url,
            host_version,
            page,
        )
}

/// `generate` draws one way: two drawings with the same drawing, table name
/// and stem give the same body.
pub open spec fn draws_one_way<F: Fn(TableGenerator, &str, &str) -> Result<String, String>>(
    generate: F,
) -> bool {
    forall|
        g: TableGenerator,
        t1: &str,
        s1: &str,
        t2: &str,
        s2: &str,
        r1: Result<String, String>,
        r2: Result<String, String>,
    |
        t1@ == t2@ && s1@ == s2@ && #[trigger] call_ensures(generate, (g, t1, s1), r1)
            && #[trigger] call_ensures(generate, (g, t2, s2), r2) ==> r1 == r2
}

/// The view of a drawn body.
pub open spec fn body_view(body: Result<String, String>) -> Result<Seq<char>, Seq<char>> {
    match body {
        Ok(b) => Ok(b@),
        Err(e) => Err(e@),
    }
}

/// The inflection table page is the lookup, then the drawing, then the page
/// filling, the first error met coming back unchanged: when the host
/// answers and transliterates one way and `generate` draws one way, the page
/// equals what looking `pali1` up (`metadata`), drawing its table (`body`)
/// and filling its page (`filled`) give one by one.
pub proof fn lemma_table_page_composes<
    'a,
    H: PlsInflectionsHost<'a> + ?Sized,
    F: Fn(TableGenerator, &str, &str) -> Result<String, String>,
>(
    host: &H,
    pali1: Seq<char>,
    generate: F,
    page: Result<OutputViewModelView, Seq<char>>,
    metadata: Result<Pali1MetadataView, Seq<char>>,
    body: Result<String, String>,
    filled: Result<OutputViewModelView, Seq<char>>,
)
    requires
        host_one_way(host),
        draws_one_way(generate),
        table_page_from_host(host, pali1, generate, page),
        metadata_from_host(host, pali1, metadata),
        metadata is Ok ==> body_drawn(metadata->Ok_0, body, generate),
        metadata is Ok && body is Ok ==> page_from_host(
            host,
            metadata->Ok_0,
            pali1,
            body->Ok_0@,
            filled,
        ),
    ensures
        page == match metadata {
            Err(e) => Err(e),
            Ok(_) => match body {
                Err(e) => Err(e@),
                Ok(_) => filled,
            },
        },
{
    let (db, tr, body2, ptr, u, v) = choose|
        db: SqlAnswers,
        tr: Transliterations,
        body: Result<String, String>,
        page_tr: Transliterations,
        host_url: Seq<char>,
        host_version: Seq<char>,
    |
        #[trigger] table_page(
            pali1,
            pali1_metadata_outcome(pali1, db, tr),
            body,
            generate,
            page_tr,
            host_url,
            host_version,
            page,
        ) && metadata_asked(host, pali1, db, tr) && table_page_asked(
            host,
            pali1,
            pali1_metadata_outcome(pali1, db, tr),
            body,
            page_tr,
            host_url,
            host_version,
            page,
        );
    let (db1, tr1) = choose|db: SqlAnswers, tr: Transliterations|
        metadata == #[trigger] pali1_metadata_outcome(pali1, db, tr) && metadata_asked(
            host,
            pali1,
            db,
            tr,
        );
    lemma_lookups_agree(host, pali1, db, tr, db1, tr1);
    if let Ok(pm) = metadata {
        assert(body_view(body2) == body_view(body)) by {
            if let Some(g) = generator_for(pm.inflection_class) {
                let (t1, s1) = choose|table: &str, stem: &str|
                    table@ == replace_char(pm.pattern, ' ', '_') && stem@ == pm.stem
                        && #[trigger] call_ensures(generate, (g, table, stem), body2);
                let (t2, s2) = choose|table: &str, stem: &str|
                    table@ == replace_char(pm.pattern, ' ', '_') && stem@ == pm.stem
                        && #[trigger] call_ensures(generate, (g, table, stem), body);
                assert(body2 == body);
            }
        }
        if let Ok(b) = body {
            let (tr2, u2, v2) = choose|tr: Transliterations, url: Seq<char>, version: Seq<char>|
                filled == #[trigger] page_outcome(pm, pali1, b@, tr, url, version) && page_asked(
                    host,
                    pali1,
                    tr,
                    url,
                    version,
                    filled,
                );
            assert(transliterates_one_way(host, pali1));
            assert(ptr(pali1) == tr2(pali1));
            if page is Ok {
                assert(u == u2);
                assert(v == v2);
            }
        }
    }
}

/// Everything the inflection table page of a headword shows: it is looked
/// up, its table body is drawn by `generate`, and its page filled in.
pub fn inflection_table_view_model<
    'a,
    H: PlsInflectionsHost<'a> + ?Sized,
    F: Fn(TableGenerator, &str, &str) -> Result<String, String>,
>(pali1: &str, host: &H, generate: F) -> (res: Result<OutputViewModel, String>)
    requires
        forall|g: TableGenerator, table: &str, stem: &str| call_requires(generate, (g, table, stem)),
    ensures
        table_page_from_host(host, pali1@, generate, result_view(res)),
{
    let md = get_pali1_metadata(pali1, host);
    let ghost (db, tr) = choose|db: SqlAnswers, tr: Transliterations|
        result_view(md) == #[trigger] pali1_metadata_outcome(pali1@, db, tr) && metadata_asked(
            host,
            pali1@,
            db,
            tr,
        );
    let ghost nothing: Result<String, String> = vstd::pervasive::arbitrary();
    let ghost no_tr: Transliterations = |s: Seq<char>| Err::<Seq<char>, Seq<char>>(Seq::<char>::empty());
    let pm = match md {
        Ok(pm) => pm,
        Err(e) => {
            assert(table_page(
                pali1@,
                pali1_metadata_outcome(pali1@, db, tr),
                nothing,
                generate,
                no_tr,
                Seq::<char>::empty(),
                Seq::<char>::empty(),
                result_view::<OutputViewModel>(Err(e)),
            ));
            return Err(e);
        },
    };
    let body = create_html_body(&pm, generate);
    let ghost body_res = body;
    match body {
        Err(e) => {
            assert(table_page(
                pali1@,
                pali1_metadata_outcome(pali1@, db, tr),
                body_res,
                generate,
                no_tr,
                Seq::<char>::empty(),
                Seq::<char>::empty(),
                result_view::<OutputViewModel>(Err(e)),
            ));
            Err(e)
        },
        Ok(b) => {
            let res = output_view_model(&pm, pali1, b.as_str(), host);
            assert(page_from_host(host, pm@, pali1@, b@, result_view(res)));
            let ghost (t, u, v) = choose|t: Transliterations, u: Seq<char>, v: Seq<char>|
                result_view(res) == #[trigger] page_outcome(pm@, pali1@, b@, t, u, v) && page_asked(
                    host,
                    pali1@,
                    t,
                    u,
                    v,
                    result_view(res),
                );
            assert(table_page(
                pali1@,
                pali1_metadata_outcome(pali1@, db, tr),
                body_res,
                generate,
                t,
                u,
                v,
                result_view(res),
            ));
            res
        },
    }
}

/// A filled page: when the host fails to transliterate the headword
/// argument `pali1`, its error; otherwise the host's transliteration of
/// `pali1`, the metadata's pattern, like-word, part of speech and meaning,
/// the body as given, the verb feedback form for a conjugation and the
/// declension form for every other class, and the URL and version the host
/// gave.
pub proof fn lemma_page_fields<'a, H: PlsInflectionsHost<'a> + ?Sized>(
    host: &H,
    pm: Pali1MetadataView,
    pali1: Seq<char>,
    body: Seq<char>,
    page: Result<OutputViewModelView, Seq<char>>,
)
    requires
        page_from_host(host, pm, pali1, body, page),
    ensures
        page matches Err(e) ==> host_transliterated(host, pali1, Err::<Seq<char>, Seq<char>>(e)),
        page matches Ok(p) ==> {
            &&& host_transliterated(host, pali1, Ok::<Seq<char>, Seq<char>>(p.pali1))
            &&& p.pattern == pm.pattern
            &&& p.like == pm.like
            &&& p.pos == pm.pos
            &&& p.meaning == pm.meaning
            &&& p.body == body
            &&& p.feedback_form_url == if pm.inflection_class == InflectionClass::Conjugation {
                "https://docs.google.com/forms/d/e/1FAIpQLSeJpx7TsISkYEXzxvbBtOH25T-ZO1Z5NFdujO5SD9qcAH_i1A/viewform"@
            } else {
                "https://docs.google.com/forms/d/e/1FAIpQLSeoxZiqvIWadaLeuXF4f44NCqEn49-B8KNbSvNer5jxgRYdtQ/viewform"@
            }
            &&& crate::host::host_url(host, p.host_url)
            &&& crate::host::host_version(host, p.host_version)
        },
{
}

} // verus!
