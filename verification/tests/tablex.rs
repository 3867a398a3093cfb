use tablex::error::TablexError;
use tablex::extract::extract_text;
use tablex::extract::extract_text_par;
use tablex::extract::split_lines;
use tablex::format::parse_output_format;
use tablex::format::OutputFormat;
use tablex::pattern::Pattern;
use tablex::render::render;
use tablex::render::render_csv;
use tablex::table::Table;
use tablex::view::build_table;
use tablex::view::config_path;
use tablex::view::resolve_adhoc;
use tablex::view::resolve_named;
use tablex::view::Config;
use tablex::view::InputRef;
use tablex::view::ViewConfig;

fn adhoc(expr: &str) -> tablex::view::Job {
    resolve_adhoc(expr, None).expect("expression should compile")
}

fn rows_of(table: &Table) -> Vec<Vec<String>> {
    table.rows.clone()
}

#[test]
fn scenario_log_lines() {
    let job = adhoc(r"(?P<ip>\d+\.\d+\.\d+\.\d+) - (?P<status>\d+)");
    assert_eq!(job.labels, vec!["ip".to_string(), "status".to_string()]);
    let text = "10.0.0.1 - 200\nmalformed line\n10.0.0.2 - 404";
    let table = build_table(&job, text, false);
    assert_eq!(table.labels, vec!["ip".to_string(), "status".to_string()]);
    assert_eq!(
        rows_of(&table),
        vec![
            vec!["10.0.0.1".to_string(), "200".to_string()],
            vec!["10.0.0.2".to_string(), "404".to_string()],
        ]
    );
}

#[test]
fn empty_input_yields_header_only() {
    let job = adhoc(r"(?P<ip>\d+\.\d+\.\d+\.\d+) - (?P<status>\d+)");
    let table = build_table(&job, "", false);
    assert_eq!(table.rows.len(), 0);
    let csv = render(&table, OutputFormat::Csv);
    assert_eq!(csv, "ip,status\n");
    let grid = render(&table, OutputFormat::Ascii);
    assert!(grid.contains("ip"));
    assert!(grid.contains("status"));
}

#[test]
fn missing_view_name_is_resolution_error() {
    let config = Config {
        views: vec![ViewConfig {
            name: "apache".to_string(),
            patterns: vec![r"(?P<ip>\S+)".to_string()],
            labels: vec!["ip".to_string()],
            file: "access.log".to_string(),
        }],
    };
    let got = resolve_named(&config, "nginx");
    match got {
        Err(TablexError::Resolution { name }) => assert_eq!(name, "nginx"),
        _ => panic!("expected a resolution error"),
    }
}

#[test]
fn first_matching_pattern_wins() {
    let config = Config {
        views: vec![ViewConfig {
            name: "both".to_string(),
            patterns: vec![r"(?P<a>foo)".to_string(), r"(?P<a>bar)".to_string()],
            labels: vec!["a".to_string()],
            file: "input.txt".to_string(),
        }],
    };
    let job = resolve_named(&config, "both").expect("view should resolve");
    assert_eq!(job.title, Some("both".to_string()));
    let table = build_table(&job, "foobar", false);
    assert_eq!(rows_of(&table), vec![vec!["foo".to_string()]]);
}

#[test]
fn absent_label_yields_empty_cell() {
    let config = Config {
        views: vec![ViewConfig {
            name: "mixed".to_string(),
            patterns: vec![r"(?P<a>x\d)".to_string(), r"(?P<b>y\d)".to_string()],
            labels: vec!["a".to_string(), "b".to_string()],
            file: "input.txt".to_string(),
        }],
    };
    let job = resolve_named(&config, "mixed").expect("view should resolve");
    let table = build_table(&job, "x1\ny2\nnothing", false);
    assert_eq!(
        rows_of(&table),
        vec![
            vec!["x1".to_string(), "".to_string()],
            vec!["".to_string(), "y2".to_string()],
        ]
    );
}

#[test]
fn optional_group_that_does_not_participate_is_empty() {
    let job = adhoc(r"(?P<word>\w+)(?P<tail>!)?");
    let table = build_table(&job, "hello", false);
    assert_eq!(rows_of(&table), vec![vec!["hello".to_string(), "".to_string()]]);
}

#[test]
fn parallel_and_sequential_extraction_agree() {
    let job = adhoc(r"(?P<k>\w+)=(?P<v>\w+)");
    let mut text = String::new();
    for i in 0..200 {
        if i % 3 == 0 {
            text.push_str("no match here\n");
        } else {
            text.push_str(&format!("key{}=value{}\n", i, i));
        }
    }
    let seq_rows = extract_text(&job.patterns, &job.labels, &text);
    let par_rows = extract_text_par(&job.patterns, &job.labels, &text);
    assert_eq!(seq_rows, par_rows);
    let table_seq = build_table(&job, &text, false);
    let table_par = build_table(&job, &text, true);
    assert_eq!(
        render(&table_seq, OutputFormat::Csv),
        render(&table_par, OutputFormat::Csv)
    );
}

#[test]
fn csv_round_trips_through_standard_parser() {
    let table = Table {
        title: None,
        labels: vec!["name".to_string(), "note".to_string()],
        rows: vec![
            vec!["plain".to_string(), "with,comma".to_string()],
            vec!["quo\"te".to_string(), "line\nbreak".to_string()],
            vec!["".to_string(), "carriage\rreturn".to_string()],
        ],
    };
    let text = render_csv(&table.labels, &table.rows);
    let mut reader = csv::ReaderBuilder::new()
        .has_headers(false)
        .flexible(true)
        .from_reader(text.as_bytes());
    let mut records: Vec<Vec<String>> = Vec::new();
    for record in reader.records() {
        let record = record.expect("csv output should parse");
        records.push(record.iter().map(|f| f.to_string()).collect());
    }
    assert_eq!(records.len(), 3 + 1);
    assert_eq!(records[0], table.labels);
    assert_eq!(records[1], table.rows[0]);
    assert_eq!(records[2], table.rows[1]);
    assert_eq!(records[3], table.rows[2]);
}

#[test]
fn csv_quoting_is_exact() {
    let labels = vec!["a".to_string()];
    let rows = vec![
        vec!["x\"y".to_string()],
        vec!["p,q".to_string()],
        vec!["plain".to_string()],
    ];
    let text = render_csv(&labels, &rows);
    assert_eq!(text, "a\n\"x\"\"y\"\n\"p,q\"\nplain\n");
}

#[test]
fn grid_holds_the_same_cells_as_csv() {
    let job = adhoc(r"(?P<ip>\d+\.\d+\.\d+\.\d+) - (?P<status>\d+)");
    let table = build_table(&job, "10.0.0.1 - 200\n10.0.0.2 - 404", false);
    let grid = render(&table, OutputFormat::Ascii);
    for cell in ["ip", "status", "10.0.0.1", "200", "10.0.0.2", "404"] {
        assert!(grid.contains(cell), "grid should show {cell}");
    }
    assert!(grid.contains('|'));
    assert!(grid.contains('-'));
}

#[test]
fn named_view_title_precedes_header_in_grid() {
    let config = Config {
        views: vec![ViewConfig {
            name: "mytitle".to_string(),
            patterns: vec![r"(?P<a>\w+)".to_string()],
            labels: vec!["a".to_string()],
            file: "input.txt".to_string(),
        }],
    };
    let job = resolve_named(&config, "mytitle").expect("view should resolve");
    let table = build_table(&job, "word", false);
    let grid = render(&table, OutputFormat::Ascii);
    assert!(grid.contains("mytitle"));
    let title_at = grid.find("mytitle").unwrap();
    let header_at = grid.find(" a ").unwrap();
    assert!(title_at < header_at);
}

#[test]
fn bad_expression_is_pattern_error() {
    match Pattern::compile("(?P<oops>") {
        Err(TablexError::Pattern { expression }) => assert_eq!(expression, "(?P<oops>"),
        _ => panic!("expected a pattern error"),
    }
    match Pattern::compile("(") {
        Err(err) => assert_eq!(err.category(), "regex does not compile"),
        Ok(_) => panic!("expected a pattern error"),
    }
}

#[test]
fn bad_pattern_in_named_view_is_fatal() {
    let config = Config {
        views: vec![ViewConfig {
            name: "broken".to_string(),
            patterns: vec![r"(?P<a>ok)".to_string(), "(".to_string()],
            labels: vec!["a".to_string()],
            file: "input.txt".to_string(),
        }],
    };
    match resolve_named(&config, "broken") {
        Err(TablexError::Pattern { expression }) => assert_eq!(expression, "("),
        _ => panic!("expected a pattern error"),
    }
}

#[test]
fn labels_follow_declaration_order_and_skip_unnamed_groups() {
    let p = Pattern::compile(r"(\d+)-(?P<second>\w+):(?P<third>\w+)(!)?").expect("should compile");
    assert_eq!(p.labels(), &vec!["second".to_string(), "third".to_string()]);
    assert_eq!(p.source(), r"(\d+)-(?P<second>\w+):(?P<third>\w+)(!)?");
}

#[test]
fn output_format_names_are_case_insensitive() {
    assert_eq!(parse_output_format("csv"), Ok(OutputFormat::Csv));
    assert_eq!(parse_output_format("CSV"), Ok(OutputFormat::Csv));
    assert_eq!(parse_output_format("ascii"), Ok(OutputFormat::Ascii));
    assert_eq!(parse_output_format("AsCiI"), Ok(OutputFormat::Ascii));
    assert_eq!(
        parse_output_format("json"),
        Err("Outputformat does not exists!".to_string())
    );
    assert!(parse_output_format("").is_err());
}

#[test]
fn config_path_prefers_base_directory_and_falls_back_to_home() {
    assert_eq!(
        config_path(Some("/xdg".to_string()), Some("/home/u".to_string())),
        Some("/xdg/tablex/config.toml".to_string())
    );
    assert_eq!(
        config_path(None, Some("/home/u".to_string())),
        Some("/home/u/tablex/config.toml".to_string())
    );
    assert_eq!(config_path(None, None), None);
}

#[test]
fn adhoc_without_path_reads_standard_input() {
    let job = resolve_adhoc(r"(?P<a>x)", None).expect("should compile");
    assert!(matches!(job.input, InputRef::StdIn));
    assert!(job.title.is_none());
    let job = resolve_adhoc(r"(?P<a>x)", Some("data.log".to_string())).expect("should compile");
    match job.input {
        InputRef::File(f) => assert_eq!(f, "data.log"),
        InputRef::StdIn => panic!("expected a file input"),
    }
}

#[test]
fn line_splitting_is_platform_neutral() {
    assert_eq!(split_lines("a\nb\n"), vec!["a".to_string(), "b".to_string()]);
    assert_eq!(split_lines("a\r\nb"), vec!["a".to_string(), "b".to_string()]);
    assert_eq!(split_lines(""), Vec::<String>::new());
    assert_eq!(split_lines("only"), vec!["only".to_string()]);
    assert_eq!(split_lines("a\n\nb"), vec!["a".to_string(), "".to_string(), "b".to_string()]);
}

#[test]
fn row_count_matches_matching_lines() {
    let job = adhoc(r"(?P<n>\d+)");
    let table = build_table(&job, "1\nx\n2\ny\n3", false);
    assert_eq!(table.rows.len(), 3);
}
