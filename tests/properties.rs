use html_extract::custom::CustomDataGenerator;
use html_extract::csv::ScraperCSVGenerator;
use html_extract::dom::{parse_document, DomNode};
use html_extract::emit::{extract_and_serialize, ScraperEmitter};
use html_extract::json::ScraperJSONGenerator;
use html_extract::node::NodeView;
use html_extract::scrap::{
    has_class, is_selected, scrape, select, AttributeFilter, ClassFilter, FilterType, IdFilter, ScrapeOptions,
    TagFilter, TextFilter,
};
use html_extract::storage::{infer_schema, ConfigError, FileFormat, StorageOptions};
use html_extract::xml::ScraperXMLGenerator;
use html_extract::yaml::ScraperYAMLGenerator;

const FIVE: &str = r#"
    <div class='test' id='div1' data-role='main'>hello world</div>
    <span class='test' id='span1' data-role='secondary'>hello rust</span>
    <div class='test' id='div2' data-role='main'>goodbye world</div>
    <div class='example' id='div3' data-role='main'>hello universe</div>
    <span class='example' id='span2' data-role='secondary'>goodbye rust</span>
"#;

fn tags(names: &[&str]) -> TagFilter {
    TagFilter {
        filter: names.iter().map(|s| s.to_string()).collect(),
    }
}

fn only_tags(names: &[&str]) -> ScrapeOptions {
    ScrapeOptions {
        tags: tags(names),
        id_filter: None,
        class_filter: None,
        attributes_include: None,
        attributes_exclude: None,
        text_include: None,
        text_exclude: None,
    }
}

fn view_of(raw: &str) -> NodeView {
    let nodes = parse_document(raw).unwrap();
    match &nodes[0] {
        DomNode::Element(e) => NodeView::from_element(e),
        _ => panic!("the first root node is not an element"),
    }
}

fn drain(mut emitter: ScraperEmitter) -> Vec<String> {
    let mut out = Vec::new();
    while let Some(chunk) = emitter.next() {
        out.push(chunk);
    }
    out
}

fn three_nodes() -> Vec<DomNode> {
    parse_document(
        "<div id='div1' class='test' data-role='main'>hello world</div>\
         <span id='span1' class='test' data-role='secondary'>hello rust</span>\
         <div id='div2' class='test' data-role='main'>goodbye world</div>",
    )
    .unwrap()
}

fn fields_options(format: FileFormat) -> StorageOptions {
    StorageOptions {
        file_format: Some(format),
        include_tag_content: Some(true),
        include_attributes: Some(vec!["class".to_string(), "id".to_string(), "data-role".to_string()]),
        ..StorageOptions::new("out".to_string())
    }
}

#[test]
fn empty_tag_set_selects_nothing() {
    let doc = parse_document(FIVE).unwrap();
    let mut options = only_tags(&[]);
    options.class_filter = Some(ClassFilter {
        filter: vec![],
        filter_type: FilterType::And,
    });
    options.text_exclude = Some(TextFilter {
        filter: vec!["nothing here".to_string()],
        filter_type: FilterType::Or,
    });
    assert!(select(&doc, &options).is_empty());
    assert!(scrape(FIVE, only_tags(&[])).unwrap().is_empty());
}

#[test]
fn class_filter_modes_follow_subset_and_overlap() {
    let node = view_of("<div class='a b c'></div>");
    let and_sub = ClassFilter { filter: vec!["a".to_string(), "c".to_string()], filter_type: FilterType::And };
    let and_not_sub = ClassFilter { filter: vec!["a".to_string(), "z".to_string()], filter_type: FilterType::And };
    let or_overlap = ClassFilter { filter: vec!["z".to_string(), "b".to_string()], filter_type: FilterType::Or };
    let or_disjoint = ClassFilter { filter: vec!["y".to_string(), "z".to_string()], filter_type: FilterType::Or };
    let and_empty = ClassFilter { filter: vec![], filter_type: FilterType::And };
    let or_empty = ClassFilter { filter: vec![], filter_type: FilterType::Or };
    assert!(has_class(&node, &and_sub));
    assert!(!has_class(&node, &and_not_sub));
    assert!(has_class(&node, &or_overlap));
    assert!(!has_class(&node, &or_disjoint));
    assert!(has_class(&node, &and_empty));
    assert!(!has_class(&node, &or_empty));
}

#[test]
fn attribute_exclude_keeps_what_include_drops() {
    let filter = || AttributeFilter {
        filter: vec![("data-role".to_string(), "main".to_string())],
        filter_type: FilterType::And,
    };
    let mut keeping = only_tags(&["div", "span"]);
    keeping.attributes_include = Some(filter());
    let mut exclude = only_tags(&["div", "span"]);
    exclude.attributes_exclude = Some(filter());
    let kept = scrape(FIVE, keeping).unwrap();
    let dropped = scrape(FIVE, exclude).unwrap();
    assert_eq!(kept.len(), 3);
    assert_eq!(dropped, vec![
        "<span class='test' id='span1' data-role='secondary'>hello rust</span>",
        "<span class='example' id='span2' data-role='secondary'>goodbye rust</span>",
    ]);
}

#[test]
fn exclude_and_rejects_only_when_every_pair_holds() {
    let node = view_of("<div id='a' data-role='main'>x</div>");
    let mut options = only_tags(&["div"]);
    options.attributes_exclude = Some(AttributeFilter {
        filter: vec![("data-role".to_string(), "main".to_string()), ("id".to_string(), "b".to_string())],
        filter_type: FilterType::And,
    });
    assert!(is_selected(&node, &options));
    options.attributes_exclude = Some(AttributeFilter {
        filter: vec![("data-role".to_string(), "main".to_string()), ("id".to_string(), "a".to_string())],
        filter_type: FilterType::And,
    });
    assert!(!is_selected(&node, &options));
}

#[test]
fn csv_rows_keep_one_cell_per_field() {
    let doc = parse_document(
        "<div class='test' data-role='main'>hello world</div><span class='test' id='span1'>hello rust</span>",
    )
    .unwrap();
    let chunks = drain(extract_and_serialize(&doc, &only_tags(&["div", "span"]), &fields_options(FileFormat::Csv)).unwrap());
    assert_eq!(chunks, vec![
        "tag,class,id,data-role,text\n",
        "div,test,,main,hello world\n",
        "span,test,span1,,hello rust\n",
    ]);
    for chunk in &chunks {
        assert_eq!(chunk.matches(',').count(), 4);
    }
}

#[test]
fn rerun_yields_identical_chunks() {
    let doc = parse_document(FIVE).unwrap();
    let storage = StorageOptions {
        file_format: Some(FileFormat::Json),
        include_tag_content: Some(true),
        pretty_print: Some(true),
        ..StorageOptions::new("out".to_string())
    };
    let first = drain(extract_and_serialize(&doc, &only_tags(&["div", "span"]), &storage).unwrap());
    let second = drain(extract_and_serialize(&doc, &only_tags(&["div", "span"]), &storage).unwrap());
    assert_eq!(first.len(), 7);
    assert_eq!(first, second);
}

#[test]
fn scenario_tag_and_class_selects_texts() {
    let doc = parse_document(FIVE).unwrap();
    let mut options = only_tags(&["div"]);
    options.class_filter = Some(ClassFilter { filter: vec!["test".to_string()], filter_type: FilterType::And });
    let texts: Vec<String> = select(&doc, &options).into_iter().map(|v| v.text).collect();
    assert_eq!(texts, vec!["hello world", "goodbye world"]);
}

#[test]
fn scenario_text_or_selects_in_document_order() {
    let doc = parse_document(FIVE).unwrap();
    let mut options = only_tags(&["div", "span"]);
    options.text_include = Some(TextFilter { filter: vec!["hello".to_string()], filter_type: FilterType::Or });
    let ids: Vec<Option<String>> = select(&doc, &options).into_iter().map(|v| v.id).collect();
    assert_eq!(ids, vec![Some("div1".to_string()), Some("span1".to_string()), Some("div3".to_string())]);
}

#[test]
fn scenario_csv_over_three_nodes() {
    let chunks = drain(extract_and_serialize(&three_nodes(), &only_tags(&["div", "span"]), &fields_options(FileFormat::Csv)).unwrap());
    assert_eq!(chunks, vec![
        "tag,class,id,data-role,text\n",
        "div,test,div1,main,hello world\n",
        "span,test,span1,secondary,hello rust\n",
        "div,test,div2,main,goodbye world\n",
    ]);
}

#[test]
fn scenario_json_over_three_nodes() {
    let chunks = drain(extract_and_serialize(&three_nodes(), &only_tags(&["div", "span"]), &fields_options(FileFormat::Json)).unwrap());
    assert_eq!(chunks, vec![
        "[",
        r#"{"tag":"div","class":["test"],"id":"div1","data-role":"main","text":"hello world"},"#,
        r#"{"tag":"span","class":["test"],"id":"span1","data-role":"secondary","text":"hello rust"},"#,
        r#"{"tag":"div","class":["test"],"id":"div2","data-role":"main","text":"goodbye world"}"#,
        "]",
    ]);
}

#[test]
fn json_omits_missing_id_key() {
    let doc = parse_document("<div class='test' data-role='main'>hello world</div>").unwrap();
    let chunks = drain(extract_and_serialize(&doc, &only_tags(&["div"]), &fields_options(FileFormat::Json)).unwrap());
    assert_eq!(chunks[1], r#"{"tag":"div","class":["test"],"data-role":"main","text":"hello world"}"#);
}

#[test]
fn json_missing_first_field_leaves_no_stray_comma() {
    let data = vec!["<div data-role='main'>x</div>".to_string()];
    let options = StorageOptions {
        file_format: Some(FileFormat::Json),
        include_tag_content: Some(true),
        include_tag_names: Some(false),
        include_attributes: Some(vec!["id".to_string(), "data-role".to_string()]),
        ..StorageOptions::new("out".to_string())
    };
    let mut generator = ScraperJSONGenerator::new(&data, &options);
    assert_eq!(generator.next(), Some("[".to_string()));
    assert_eq!(generator.next(), Some(r#"{"data-role":"main","text":"x"}"#.to_string()));
    assert_eq!(generator.next(), Some("]".to_string()));
    assert_eq!(generator.next(), None);
}

#[test]
fn valueless_attribute_reads_as_empty_string() {
    let node = view_of("<div hidden>x</div>");
    let mut options = only_tags(&["div"]);
    options.attributes_include = Some(AttributeFilter {
        filter: vec![("hidden".to_string(), "".to_string())],
        filter_type: FilterType::And,
    });
    assert!(is_selected(&node, &options));
    let data = vec!["<div hidden>x</div>".to_string()];
    let csv_options = StorageOptions {
        include_tag_content: Some(true),
        include_attributes: Some(vec!["hidden".to_string(), "missing".to_string()]),
        ..StorageOptions::new("out".to_string())
    };
    let mut csv = ScraperCSVGenerator::new(&data, &csv_options);
    assert_eq!(csv.next(), Some("tag,hidden,missing,text\n".to_string()));
    assert_eq!(csv.next(), Some("div,,,x\n".to_string()));
    let mut yaml = ScraperYAMLGenerator::new(&data, &csv_options);
    assert_eq!(yaml.next(), Some("data:\n  - tag: div\n  - hidden: \n  - text: x\n".to_string()));
}

#[test]
fn traversal_is_preorder_and_text_joins_descendants() {
    let doc = parse_document("<div id='a'>one<span id='b'>two</span>three</div><p id='c'>four</p>").unwrap();
    let found = select(&doc, &only_tags(&["div", "span", "p"]));
    let ids: Vec<Option<String>> = found.iter().map(|v| v.id.clone()).collect();
    assert_eq!(ids, vec![Some("a".to_string()), Some("b".to_string()), Some("c".to_string())]);
    assert_eq!(found[0].text, "one two three");
}

#[test]
fn classes_drop_repeats() {
    let node = view_of("<div class='a b a c b'></div>");
    assert_eq!(node.classes, vec!["a", "b", "c"]);
}

#[test]
fn discovered_schema_keeps_first_seen_order() {
    let nodes = vec![view_of("<div data-x='1'>a</div>"), view_of("<div class='k' id='i'>b</div>")];
    let options = StorageOptions {
        include_tag_content: Some(true),
        ..StorageOptions::new("out".to_string())
    };
    assert_eq!(infer_schema(&nodes, &options), vec!["tag", "data-x", "id", "class", "text"]);
    let text_only = StorageOptions::new("out".to_string());
    assert_eq!(infer_schema(&nodes, &text_only), vec!["text"]);
}

#[test]
fn unusable_configuration_is_refused() {
    let doc = three_nodes();
    let mut storage = fields_options(FileFormat::Csv);
    storage.delimiter = Some(String::new());
    assert!(matches!(extract_and_serialize(&doc, &only_tags(&["div"]), &storage), Err(ConfigError::EmptyDelimiter)));
    let mut storage = fields_options(FileFormat::Json);
    storage.include_attributes = Some(vec!["id".to_string(), String::new()]);
    assert!(matches!(extract_and_serialize(&doc, &only_tags(&["div"]), &storage), Err(ConfigError::EmptyFieldName)));
}

#[test]
fn yaml_omits_text_without_alphanumerics() {
    let data = vec!["<div id='a'>-- ..</div>".to_string(), "<div id='b'>é</div>".to_string()];
    let options = StorageOptions {
        include_tag_content: Some(true),
        include_attributes: Some(vec!["id".to_string()]),
        ..StorageOptions::new("out".to_string())
    };
    let mut generator = ScraperYAMLGenerator::new(&data, &options);
    assert_eq!(generator.next(), Some("data:\n  - tag: div\n  - id: a".to_string()));
    assert_eq!(generator.next(), Some("\ndata:\n  - tag: div\n  - id: b\n  - text: é\n".to_string()));
    assert_eq!(generator.next(), None);
}

#[test]
fn malformed_fragment_fails_only_its_record() {
    let data = vec!["<b>one</b>".to_string(), "just text".to_string(), "<i>two</i>".to_string()];
    let options = StorageOptions::new("out".to_string());
    let mut generator = ScraperCSVGenerator::new(&data, &options);
    assert_eq!(generator.malformed, vec![1]);
    assert_eq!(generator.next(), Some("text\n".to_string()));
    assert_eq!(generator.next(), Some("one\n".to_string()));
    assert_eq!(generator.next(), Some("two\n".to_string()));
    assert_eq!(generator.next(), None);
}

#[test]
fn fragment_with_head_is_a_parse_error() {
    assert!(scrape("<head></head>", only_tags(&["head"])).is_err());
}

#[test]
fn xml_pretty_omits_missing_field_entirely() {
    let data = vec!["<div>x</div>".to_string()];
    let options = StorageOptions {
        include_tag_content: Some(true),
        include_attributes: Some(vec!["id".to_string()]),
        pretty_print: Some(true),
        ..StorageOptions::new("out".to_string())
    };
    let mut generator = ScraperXMLGenerator::new(&data, &options);
    generator.next();
    assert_eq!(generator.next(), Some("\n<data>\n  <tag>div</tag>\n  <text>x</text>\n</data>".to_string()));
}

#[test]
fn custom_sink_receives_raw_records() {
    let data = vec!["<b>one</b>".to_string(), "<i>two</i>".to_string()];
    let mut generator = CustomDataGenerator::new(&data, &StorageOptions::new("out".to_string()));
    assert_eq!(generator.next(), Some("<b>one</b>".to_string()));
    assert_eq!(generator.next(), Some("<i>two</i>".to_string()));
    assert_eq!(generator.next(), None);
}

#[test]
fn default_format_passes_markup_through() {
    let doc = three_nodes();
    let mut options = only_tags(&["span"]);
    options.id_filter = Some(IdFilter { filter: vec!["span1".to_string()] });
    let chunks = drain(extract_and_serialize(&doc, &options, &StorageOptions::new("out".to_string())).unwrap());
    assert_eq!(chunks, vec!["<span id='span1' class='test' data-role='secondary'>hello rust</span>"]);
}

#[test]
fn view_orders_attributes_by_name() {
    let node = view_of("<div data-b='2' data-a='1' Data-c='3' data-ab='4'>x</div>");
    let names: Vec<String> = node.attributes.iter().map(|(k, _)| k.clone()).collect();
    assert_eq!(names, vec!["Data-c", "data-a", "data-ab", "data-b"]);
    let options = StorageOptions {
        file_format: Some(FileFormat::Csv),
        include_tag_content: Some(true),
        ..StorageOptions::new("out".to_string())
    };
    let doc = parse_document("<div data-b='2' data-a='1'>x</div>").unwrap();
    let chunks = drain(extract_and_serialize(&doc, &only_tags(&["div"]), &options).unwrap());
    assert_eq!(chunks, vec!["tag,data-a,data-b,text\n", "div,1,2,x\n"]);
}

#[test]
fn class_and_id_keys_ignore_ascii_case() {
    let node = view_of("<div id='a' class='x'>t</div>");
    for mode in [FilterType::And, FilterType::Or] {
        let mut options = only_tags(&["div"]);
        options.attributes_include = Some(AttributeFilter {
            filter: vec![("Class".to_string(), "x".to_string()), ("ID".to_string(), "a".to_string())],
            filter_type: mode,
        });
        assert!(is_selected(&node, &options));
    }
    let mut options = only_tags(&["div"]);
    options.attributes_include = Some(AttributeFilter {
        filter: vec![("CLASS".to_string(), "y".to_string())],
        filter_type: FilterType::Or,
    });
    assert!(!is_selected(&node, &options));
}

#[test]
fn emitter_from_fragments_reports_malformed_positions() {
    let data = vec!["plain".to_string(), "<b>one</b>".to_string(), "<head></head>".to_string()];
    let options = StorageOptions {
        file_format: Some(FileFormat::Xml),
        ..StorageOptions::new("out".to_string())
    };
    let mut emitter = ScraperEmitter::from_sources(&data, &options).unwrap();
    assert_eq!(emitter.malformed(), vec![0, 2]);
    assert_eq!(emitter.next(), Some(r#"<?xml version="1.0" encoding="UTF-8"?>"#.to_string()));
    assert_eq!(emitter.next(), Some("<data><text>one</text></data>".to_string()));
    assert_eq!(emitter.next(), None);
    let mut bad = StorageOptions::new("out".to_string());
    bad.delimiter = Some(String::new());
    assert!(matches!(ScraperEmitter::from_sources(&data, &bad), Err(ConfigError::EmptyDelimiter)));
}

#[test]
fn first_gen_opens_csv_and_json() {
    let data = vec!["<b id='i'>one</b>".to_string()];
    let options = StorageOptions {
        include_tag_content: Some(true),
        delimiter: Some(";".to_string()),
        ..StorageOptions::new("out".to_string())
    };
    let mut csv = ScraperCSVGenerator::new(&data, &options);
    assert_eq!(csv.first_gen(), "tag;id;text\n");
    assert_eq!(csv.next(), Some("b;i;one\n".to_string()));
    let mut json = ScraperJSONGenerator::new(&data, &options);
    assert_eq!(json.first_gen(), "[");
    assert_eq!(json.next(), Some(r#"{"tag":"b","id":"i","text":"one"}"#.to_string()));
}
