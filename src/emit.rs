//! The core entry point: select from a parsed document and serialise the
//! selection lazily in the configured format.

use vstd::prelude::*;
use crate::csv::{csv_chunk, ScraperCSVGenerator};
use crate::custom::CustomDataGenerator;
use crate::dom::DomNode;
use crate::json::{json_chunk, ScraperJSONGenerator};
use crate::node::views;
use crate::scrap::{select, select_forest, sources, ScrapeOptions};
use crate::storage::{
    config_error, delimiter_of, flag, format_of, schema_of, sources_split, ConfigError, FileFormat,
    StorageOptions,
};
use crate::text::str_seq;
use crate::txt::ScraperTxtGenerator;
use crate::xml::{xml_chunk, ScraperXMLGenerator};
use crate::yaml::{yaml_chunk, ScraperYAMLGenerator};

verus! {

/// An emitter of any format.
pub enum ScraperEmitter {
    Txt(ScraperTxtGenerator),
    Json(ScraperJSONGenerator),
    Csv(ScraperCSVGenerator),
    Xml(ScraperXMLGenerator),
    Yaml(ScraperYAMLGenerator),
    Custom(CustomDataGenerator),
}

impl ScraperEmitter {
    /// The emission state is consistent.
    pub open spec fn wf(&self) -> bool {
        match self {
            ScraperEmitter::Txt(g) => g.0.index <= g.0.data@.len(),
            ScraperEmitter::Json(g) => g.wf(),
            ScraperEmitter::Csv(g) => g.wf(),
            ScraperEmitter::Xml(g) => g.wf(),
            ScraperEmitter::Yaml(g) => g.wf(),
            ScraperEmitter::Custom(g) => g.index <= g.data@.len(),
        }
    }

    /// How many chunks the run has.
    pub open spec fn chunk_count(&self) -> nat {
        match self {
            ScraperEmitter::Txt(g) => g.0.data@.len(),
            ScraperEmitter::Json(g) => g.chunk_count(),
            ScraperEmitter::Csv(g) => g.chunk_count(),
            ScraperEmitter::Xml(g) => g.chunk_count(),
            ScraperEmitter::Yaml(g) => g.chunk_count(),
            ScraperEmitter::Custom(g) => g.data@.len(),
        }
    }

    /// How many chunks have been emitted.
    pub open spec fn position(&self) -> nat {
        match self {
            ScraperEmitter::Txt(g) => g.0.index as nat,
            ScraperEmitter::Json(g) => g.position(),
            ScraperEmitter::Csv(g) => g.position(),
            ScraperEmitter::Xml(g) => g.position(),
            ScraperEmitter::Yaml(g) => g.position(),
            ScraperEmitter::Custom(g) => g.index as nat,
        }
    }

    /// Chunk `k` of the run.
    pub open spec fn chunk(&self, k: int) -> Seq<char> {
        match self {
            ScraperEmitter::Txt(g) => g.0.data@[k]@,
            ScraperEmitter::Json(g) => g.chunk(k),
            ScraperEmitter::Csv(g) => g.chunk(k),
            ScraperEmitter::Xml(g) => g.chunk(k),
            ScraperEmitter::Yaml(g) => g.chunk(k),
            ScraperEmitter::Custom(g) => g.data@[k]@,
        }
    }

    /// Every chunk of the run, in order.
    pub open spec fn output(&self) -> Seq<Seq<char>> {
        Seq::new(self.chunk_count(), |k: int| self.chunk(k))
    }

    /// The positions of the given markup fragments that were not element
    /// markup; none for the formats that pass fragments through.
    pub open spec fn malformed_positions(&self) -> Seq<usize> {
        match self {
            ScraperEmitter::Json(g) => g.malformed@,
            ScraperEmitter::Csv(g) => g.malformed@,
            ScraperEmitter::Xml(g) => g.malformed@,
            ScraperEmitter::Yaml(g) => g.malformed@,
            _ => Seq::empty(),
        }
    }

    /// An emitter over markup fragments in the configured format; a
    /// configuration that cannot be used is refused before any fragment is
    /// read.
    pub fn from_sources(data: &Vec<String>, storage: &StorageOptions) -> (r: Result<Self, ConfigError>)
        ensures
            r is Err <==> config_error(*storage) is Some,
            r matches Err(e) ==> config_error(*storage) == Some(e),
            r matches Ok(e) ==> e.wf() && e.position() == 0 && built_from_sources(e, data@, *storage),
    {
        if let Err(e) = storage.validate() {
            return Err(e);
        }
        let format = match storage.file_format {
            Some(f) => f,
            None => FileFormat::Txt,
        };
        let emitter = match format {
            FileFormat::Txt => ScraperEmitter::Txt(ScraperTxtGenerator::new(data, storage)),
            FileFormat::Json => ScraperEmitter::Json(ScraperJSONGenerator::new(data, storage)),
            FileFormat::Csv => ScraperEmitter::Csv(ScraperCSVGenerator::new(data, storage)),
            FileFormat::Xml => ScraperEmitter::Xml(ScraperXMLGenerator::new(data, storage)),
            FileFormat::Yaml => ScraperEmitter::Yaml(ScraperYAMLGenerator::new(data, storage)),
            FileFormat::Custom => ScraperEmitter::Custom(CustomDataGenerator::new(data, storage)),
        };
        Ok(emitter)
    }

    /// The positions of the given markup fragments that were not element
    /// markup.
    pub fn malformed(&self) -> (r: Vec<usize>)
        ensures
            r@ == self.malformed_positions(),
    {
        let positions = match self {
            ScraperEmitter::Json(g) => &g.malformed,
            ScraperEmitter::Csv(g) => &g.malformed,
            ScraperEmitter::Xml(g) => &g.malformed,
            ScraperEmitter::Yaml(g) => &g.malformed,
            _ => {
                return Vec::new();
            },
        };
        let mut r: Vec<usize> = Vec::new();
        let mut i: usize = 0;
        while i < positions.len()
            invariant
                i <= positions.len(),
                positions@ == self.malformed_positions(),
                r@ == positions@.take(i as int),
            decreases positions.len() - i,
        {
            r.push(positions[i]);
            assert(r@ =~= positions@.take(i + 1));
            i += 1;
        }
        assert(positions@.take(i as int) =~= positions@);
        r
    }

    /// The next chunk, or `None` once all have been emitted.
    pub fn next(&mut self) -> (r: Option<String>)
        requires
            old(self).wf(),
        ensures
            final(self).wf(),
            final(self).output() == old(self).output(),
            old(self).position() < old(self).chunk_count() ==> r is Some && r->0@ == old(self).chunk(
                old(self).position() as int,
            ) && final(self).position() == old(self).position() + 1,
            old(self).position() >= old(self).chunk_count() ==> r is None && final(self).position()
                == old(self).position(),
    {
        let ghost before = *self;
        let r = match self {
            ScraperEmitter::Txt(g) => g.next(),
            ScraperEmitter::Json(g) => g.next(),
            ScraperEmitter::Csv(g) => g.next(),
            ScraperEmitter::Xml(g) => g.next(),
            ScraperEmitter::Yaml(g) => g.next(),
            ScraperEmitter::Custom(g) => g.next(),
        };
        assert(self.output() =~= before.output());
        r
    }
}

/// An emitter holds the markup fragments `data` as the configuration `o`
/// asks: the fragments themselves for the formats that pass them through,
/// else their views with the malformed positions, the inferred schema and
/// the format's settings.
pub open spec fn built_from_sources(e: ScraperEmitter, data: Seq<String>, o: StorageOptions) -> bool {
    match e {
        ScraperEmitter::Txt(g) => format_of(o) == FileFormat::Txt && g.0.data@ == data && g.0.options@
            == o@,
        ScraperEmitter::Custom(g) => format_of(o) == FileFormat::Custom && g.data@ == data && g.options@
            == o@,
        ScraperEmitter::Csv(g) => format_of(o) == FileFormat::Csv && sources_split(data, g.nodes@, g.malformed@)
            && str_seq(g.schema@) == schema_of(views(g.nodes@), o) && g.delimiter@ == delimiter_of(o),
        ScraperEmitter::Json(g) => format_of(o) == FileFormat::Json && sources_split(data, g.nodes@, g.malformed@)
            && str_seq(g.schema@) == schema_of(views(g.nodes@), o) && g.pretty == flag(o.pretty_print, false),
        ScraperEmitter::Xml(g) => format_of(o) == FileFormat::Xml && sources_split(data, g.nodes@, g.malformed@)
            && str_seq(g.schema@) == schema_of(views(g.nodes@), o) && g.pretty == flag(o.pretty_print, false),
        ScraperEmitter::Yaml(g) => format_of(o) == FileFormat::Yaml && sources_split(data, g.nodes@, g.malformed@)
            && str_seq(g.schema@) == schema_of(views(g.nodes@), o),
    }
}

/// The chunks that a run over a document yields: the selected nodes, under
/// the schema inferred from them, in the configured format.
pub open spec fn expected_output(document: Seq<DomNode>, options: ScrapeOptions, storage: StorageOptions) -> Seq<Seq<char>> {
    let nodes = select_forest(document, options);
    let schema = schema_of(nodes, storage);
    let pretty = flag(storage.pretty_print, false);
    match format_of(storage) {
        FileFormat::Txt => sources(nodes),
        FileFormat::Custom => sources(nodes),
        FileFormat::Csv => Seq::new(
            nodes.len() + 1,
            |k: int| csv_chunk(nodes, schema, delimiter_of(storage), k),
        ),
        FileFormat::Json => Seq::new(nodes.len() + 2, |k: int| json_chunk(nodes, schema, pretty, k)),
        FileFormat::Xml => Seq::new(nodes.len() + 1, |k: int| xml_chunk(nodes, schema, pretty, k)),
        FileFormat::Yaml => Seq::new(nodes.len(), |k: int| yaml_chunk(nodes, schema, k)),
    }
}

/// Selects from a parsed document and returns an emitter of the selection
/// in the configured format; a configuration that cannot be used is refused
/// before any node is processed.
pub fn extract_and_serialize(
    document: &Vec<DomNode>,
    options: &ScrapeOptions,
    storage: &StorageOptions,
) -> (r: Result<ScraperEmitter, ConfigError>)
    ensures
        r is Err <==> config_error(*storage) is Some,
        r matches Err(e) ==> config_error(*storage) == Some(e),
        r matches Ok(e) ==> e.wf() && e.position() == 0 && e.output() == expected_output(
            document@,
            *options,
            *storage,
        ),
{
    if let Err(e) = storage.validate() {
        return Err(e);
    }
    let nodes = select(document, options);
    let ghost selected = select_forest(document@, *options);
    let format = match storage.file_format {
        Some(f) => f,
        None => FileFormat::Txt,
    };
    let emitter = match format {
        FileFormat::Txt | FileFormat::Custom => {
            let mut records: Vec<String> = Vec::new();
            let mut i: usize = 0;
            while i < nodes.len()
                invariant
                    i <= nodes.len(),
                    views(nodes@) == selected,
                    str_seq(records@) == sources(selected).take(i as int),
                    records@.len() == i,
                decreases nodes.len() - i,
            {
                records.push(nodes[i].source.clone());
                assert(sources(selected)[i as int] == nodes@[i as int].source@);
                assert(str_seq(records@) =~= sources(selected).take(i + 1));
                i += 1;
            }
            assert(sources(selected).take(i as int) =~= sources(selected));
            if format == FileFormat::Txt {
                let g = ScraperTxtGenerator::new(&records, storage);
                let e = ScraperEmitter::Txt(g);
                assert(e.output() =~= expected_output(document@, *options, *storage)) by {
                    assert forall|k: int| 0 <= k < e.chunk_count() implies e.output()[k]
                        == expected_output(document@, *options, *storage)[k] by {
                        assert(str_seq(records@)[k] == records@[k]@);
                    }
                }
                e
            } else {
                let g = CustomDataGenerator::new(&records, storage);
                let e = ScraperEmitter::Custom(g);
                assert(e.output() =~= expected_output(document@, *options, *storage)) by {
                    assert forall|k: int| 0 <= k < e.chunk_count() implies e.output()[k]
                        == expected_output(document@, *options, *storage)[k] by {
                        assert(str_seq(records@)[k] == records@[k]@);
                    }
                }
                e
            }
        },
        FileFormat::Json => {
            let e = ScraperEmitter::Json(ScraperJSONGenerator::from_views(nodes, storage));
            assert(e.output() =~= expected_output(document@, *options, *storage));
            e
        },
        FileFormat::Csv => {
            let e = ScraperEmitter::Csv(ScraperCSVGenerator::from_views(nodes, storage));
            assert(e.output() =~= expected_output(document@, *options, *storage));
            e
        },
        FileFormat::Xml => {
            let e = ScraperEmitter::Xml(ScraperXMLGenerator::from_views(nodes, storage));
            assert(e.output() =~= expected_output(document@, *options, *storage));
            e
        },
        FileFormat::Yaml => {
            let e = ScraperEmitter::Yaml(ScraperYAMLGenerator::from_views(nodes, storage));
            assert(e.output() =~= expected_output(document@, *options, *storage));
            e
        },
    };
    Ok(emitter)
}

/// Two runs over the same document, selection and configuration yield the
/// same chunks, one for one.
pub proof fn lemma_rerun_identical(
    document: Seq<DomNode>,
    options: ScrapeOptions,
    storage: StorageOptions,
    first: ScraperEmitter,
    second: ScraperEmitter,
)
    requires
        first.output() == expected_output(document, options, storage),
        second.output() == expected_output(document, options, storage),
    ensures
        first.chunk_count() == second.chunk_count(),
        forall|k: int| 0 <= k < first.chunk_count() ==> #[trigger] first.chunk(k) == second.chunk(k),
{
    assert(first.output().len() == first.chunk_count());
    assert(second.output().len() == second.chunk_count());
    assert forall|k: int| 0 <= k < first.chunk_count() implies #[trigger] first.chunk(k) == second.chunk(k) by {
        assert(first.output()[k] == first.chunk(k));
        assert(second.output()[k] == second.chunk(k));
    }
}

} // verus!
