use deimos::binary64::Real;
use deimos::datetime::UtcTime;
use deimos::dispatcher::channel_filter::ChannelFilter;
use deimos::dispatcher::csv::{
    panic_message, CsvDispatcher, CsvLoader, CsvWriter, LoadedCsv, PanicPayload, RowPlace,
};
use deimos::dispatcher::decimation::DecimationDispatcher;
use deimos::dispatcher::df::{DataFrameDispatcher, SimpleDataFrame};
use deimos::dispatcher::latest::LatestValueDispatcher;
use deimos::dispatcher::lines::{
    csv_header, csv_row, csv_row_fixed_width, fmt_f64, fmt_i64, header_columns, Overflow,
};
use deimos::dispatcher::low_pass::{FilterStep, LowPassDispatcher};
use deimos::dispatcher::reporting::{oversized_row, ReportingDispatcher, Schema, SendOutcome};
use deimos::dispatcher::row::Row;
use deimos::dispatcher::tsdb::{
    batch_size, connection_string, copy_query, duration_from_nanos, effective_chunk_interval,
    existence_query, insert_query, split_host, sql_interval_literal, table_query,
    timescaledb_policy_query, Batch, TimescaleDbDispatcher,
};
use deimos::dispatcher::wire::ReportingMessage;
use deimos::math::polynomial::{check_fit, check_outcome, Point};
use deimos::span::Span;

const EPOCH: UtcTime = UtcTime { secs: 0, nanos: 0 };

fn num(x: f64) -> Real {
    Real::from_bits(x.to_bits())
}

fn strings(v: &[&str]) -> Vec<String> {
    v.iter().map(|s| s.to_string()).collect()
}

fn points(v: &[(f64, f64)]) -> Vec<Point> {
    v.iter()
        .map(|(x, y)| Point {
            x: num(*x),
            y: num(*y),
        })
        .collect()
}

/// Loads a file, reading the numbers of each row from their texts.
fn load_csv(path: &str, bytes: &[u8]) -> Result<LoadedCsv, String> {
    let mut loader = CsvLoader::open(path, bytes)?;
    while let Some(fields) = loader.next_row() {
        let fields = fields?;
        let numbers = fields
            .values
            .iter()
            .map(|s| s.trim().parse::<f64>().map(num).map_err(|e| e.to_string()))
            .collect();
        loader.store(fields, numbers)?;
    }
    Ok(loader.finish())
}

/// Writes rows as the CSV dispatcher does, into files in memory.
fn write_files(writer: &mut CsvWriter, header: &str, rows: &[String]) -> Vec<Vec<u8>> {
    let mut files = vec![header.as_bytes().to_vec()];
    for row in rows {
        let n = row.len();
        match writer.place(n) {
            RowPlace::Here => {}
            RowPlace::Start { position } => assert_eq!(position, header.len()),
            RowPlace::NewFile { .. } => files.push(header.as_bytes().to_vec()),
            RowPlace::Full => break,
        }
        let at = writer.position;
        let file = files.last_mut().unwrap();
        if file.len() < at + n {
            file.resize(at + n, 0);
        }
        file[at..at + n].copy_from_slice(row.as_bytes());
        writer.written(n);
    }
    files
}

fn fixed_row(millis: i64, value: f64) -> String {
    let mut row = String::new();
    let time = UtcTime {
        secs: millis / 1_000,
        nanos: (millis % 1_000) as u32 * 1_000_000,
    };
    csv_row_fixed_width(&mut row, time, millis, &[format!("{value:.17e}")]);
    row
}

#[test]
fn terminate_finalizes_csv_before_returning() {
    let channel_names = strings(&["ain3"]);
    let dispatcher = CsvDispatcher::new(1, Overflow::Error);
    let header = csv_header(&channel_names);
    let mut writer = CsvWriter::new(
        dispatcher.file_stem("cal_run"),
        header.len(),
        dispatcher.chunk_size_megabytes * 1024 * 1024,
        dispatcher.overflow_behavior,
    );
    assert_eq!(writer.stem, "cal_run");
    let rows: Vec<String> = (0..1_000_i64).map(|idx| fixed_row(idx, idx as f64)).collect();
    let files = write_files(&mut writer, &header, &rows);
    assert_eq!(writer.final_len(), files[0].len() as u64);

    let loaded = load_csv("cal_run.csv", &files[0]).expect("load finalized CSV");
    assert_eq!(loaded.channel_names(), channel_names.as_slice());
    assert_eq!(loaded.rows().len(), 1_000);
    for (idx, row) in loaded.rows().iter().enumerate() {
        assert_eq!(row.timestamp, idx as i64);
        assert_eq!(row.time.nanos, (idx % 1_000) as u32 * 1_000_000);
        assert_eq!(row.channel_values, [num(idx as f64)]);
    }
}

#[test]
fn full_files_wrap_shard_or_stop() {
    let header = csv_header(&strings(&["x"]));
    let rows: Vec<String> = (0..5).map(|i| fixed_row(i, i as f64)).collect();
    let total = header.len() + 2 * rows[0].len();
    let mut writer = CsvWriter::new("run".to_owned(), header.len(), total, Overflow::Wrap);
    let files = write_files(&mut writer, &header, &rows);
    let loaded = load_csv("run.csv", &files[0]).unwrap();
    let stamps: Vec<i64> = loaded.rows().iter().map(|r| r.timestamp).collect();
    assert_eq!(stamps, [4, 3]);
    assert_eq!(writer.position, header.len() + rows[0].len());
    assert_eq!(writer.final_len(), total as u64);
    assert_eq!(files[0].len(), total);

    let mut writer = CsvWriter::new("run".to_owned(), header.len(), total, Overflow::NewFile);
    let files = write_files(&mut writer, &header, &rows);
    assert_eq!(files.len(), 3);
    assert_eq!(writer.shard_number, 2);
    assert_eq!(writer.final_len(), files[2].len() as u64);
    assert_eq!(files[2].len(), header.len() + rows[0].len());
    writer.position = total;
    match writer.place(1) {
        RowPlace::NewFile { name } => assert_eq!(name, "run_3.csv"),
        other => panic!("{other:?}"),
    }

    let mut writer = CsvWriter::new("run".to_owned(), header.len(), total, Overflow::Error);
    let files = write_files(&mut writer, &header, &rows);
    assert_eq!(load_csv("run.csv", &files[0]).unwrap().rows().len(), 2);
    assert!(matches!(writer.place(rows[0].len()), RowPlace::Full));
}

#[test]
fn wrapped_files_keep_the_last_rows() {
    let header = csv_header(&strings(&["x"]));
    let width = fixed_row(0, 0.0).len();
    for n in 0..12_usize {
        let rows: Vec<String> = (0..n).map(|i| fixed_row(i as i64, i as f64)).collect();
        // Room for three rows, and for a part of a fourth one.
        let total = header.len() + 3 * width + width / 2;
        let mut writer = CsvWriter::new("run".to_owned(), header.len(), total, Overflow::Wrap);
        let files = write_files(&mut writer, &header, &rows);
        assert_eq!(files.len(), 1);
        let file = &files[0][..writer.final_len() as usize];
        assert_eq!(file.len(), header.len() + n.min(3) * width);
        assert_eq!(&file[..header.len()], header.as_bytes());
        for i in n.saturating_sub(3)..n {
            let at = header.len() + (i % 3) * width;
            assert_eq!(&file[at..at + width], rows[i].as_bytes());
        }
        assert_eq!(load_csv("run.csv", file).unwrap().rows().len(), n.min(3));
    }
}

#[test]
fn fixed_width_keeps_finite_numbers() {
    assert_eq!(fmt_f64("1.50000000000000000e0"), "+1.50000000000000000e+000");
    for x in [0.0, 1.5, -1.5, f64::MAX, f64::MIN, f64::MIN_POSITIVE, -5e-324, 0.1, -1e-100] {
        let text = fmt_f64(&format!("{x:.17e}"));
        assert_eq!(text.len(), 25, "{text}");
        assert_eq!(text.parse::<f64>().unwrap().to_bits(), x.to_bits(), "{text}");
    }
}

#[test]
fn rows_have_one_width() {
    let width = fixed_row(0, 0.0).len();
    assert_eq!(width, 53 + 26);
    for (millis, value) in [
        (i64::from(u32::MAX), 1e300),
        (1, -1e-300),
        (7, f64::MIN_POSITIVE),
        (9, -0.0),
    ] {
        assert_eq!(fixed_row(millis, value).len(), width, "{millis} {value}");
    }
    let mut row = String::new();
    csv_row_fixed_width(&mut row, EPOCH, i64::MIN, &[format!("{:.17e}", 1.0)]);
    assert_eq!(row.len(), width);
    csv_row_fixed_width(&mut row, EPOCH, -5, &[format!("{:.17e}", -0.5)]);
    assert_eq!(
        row,
        "-00000000000000000005,1970-01-01T00:00:00.000000000Z,-5.00000000000000000e-001\n"
    );
}

#[test]
fn numbers_are_padded() {
    assert_eq!(fmt_f64("1.5e0"), "+1.5e+000");
    assert_eq!(fmt_f64("-2e-12"), "-2e-012");
    assert_eq!(fmt_f64("3e300"), "+3e+300");
    assert_eq!(fmt_f64("NaN"), "+NaN");
    assert_eq!(fmt_i64(42), "+00000000000000000042");
    assert_eq!(fmt_i64(i64::MIN), "-09223372036854775808");
    let mut row = "old".to_owned();
    csv_row(&mut row, EPOCH, -5, &strings(&["1.5", "NaN"]));
    assert_eq!(row, "-5,1970-01-01T00:00:00.000000000Z,1.5,NaN\n");
    assert_eq!(header_columns(&strings(&["a"])), ["timestamp", "time", "a"]);
    assert_eq!(csv_header(&strings(&["a", "b"])), "timestamp,time,a,b\n");
    assert_eq!(Overflow::default(), Overflow::Wrap);
}

#[test]
fn loads_report_what_is_wrong() {
    let error = |bytes: &str| load_csv("f.csv", bytes.as_bytes()).unwrap_err();
    assert_eq!(error("time,x\n"), "CSV is missing required column `timestamp`");
    assert_eq!(error("timestamp,x\n"), "CSV is missing required column `time`");
    let time = "1970-01-01T00:00:00Z";
    assert_eq!(
        error(&format!("timestamp,time,x\nq,{time},1\n")),
        "Invalid CSV timestamp on row 0: invalid digit found in string"
    );
    assert!(error("timestamp,time,x\n1,noon,1\n").starts_with("Invalid CSV wall-clock time on row 0: "));
    assert_eq!(
        error(&format!("timestamp,time,x\n1,{time},q\n")),
        "Invalid CSV value for `x` on row 0: invalid float literal"
    );
    assert!(error(&format!("timestamp,time,x\n1,{time}\n")).starts_with("Failed to read CSV row 0 from f.csv: "));
    assert!(load_csv("f.csv", b"timestamp,time,\xff\n").is_err());
}

#[test]
fn loads_find_columns_in_any_order() {
    let loaded = load_csv(
        "f.csv",
        b"x,time,\"y, quoted\",timestamp\n1.5, 1970-01-01T00:00:01.5Z ,2, +7 \n",
    )
    .unwrap();
    assert_eq!(loaded.channel_names(), ["x", "y, quoted"]);
    assert_eq!(loaded.channel_index("y, quoted"), Some(1));
    assert_eq!(loaded.channel_index("time"), None);
    assert_eq!(loaded.rows()[0].timestamp, 7);
    assert_eq!(
        loaded.rows()[0].time,
        UtcTime {
            secs: 1,
            nanos: 500_000_000,
        }
    );
    assert_eq!(loaded.rows()[0].channel_values, [num(1.5), num(2.0)]);
    assert_eq!(
        loaded.required_channel_indices(&strings(&["y, quoted", "x"])),
        Ok(vec![1, 0])
    );
    assert!(loaded.required_channel_indices(&strings(&["z"])).is_err());
}

#[test]
fn file_stems_take_a_suffix() {
    let dispatcher = CsvDispatcher::new(1, Overflow::Wrap).with_op_name_suffix("raw");
    assert_eq!(dispatcher.file_stem("run"), "run_raw");
    assert_eq!(CsvDispatcher::new(1, Overflow::Wrap).with_op_name_suffix("").file_stem("run"), "run");
    assert!(panic_message(PanicPayload::Text("boom".to_owned())).contains("boom"));
    assert!(!panic_message(PanicPayload::Other).is_empty());
}

#[test]
fn filters_select_channels_in_their_order() {
    let mut filter = ChannelFilter::new(strings(&["c", "a"]));
    assert!(filter.consume(&[num(1.0)]).is_err());
    assert_eq!(filter.init(&strings(&["a", "b", "c"])).unwrap(), ["c", "a"]);
    assert_eq!(
        filter.consume(&[num(1.0), num(2.0), num(3.0)]).unwrap(),
        [num(3.0), num(1.0)]
    );
    assert_eq!(
        filter.consume(&[num(1.0)]),
        Err("Channel filter index 2 out of bounds for 1 values".to_owned())
    );
    filter.terminate();
    assert!(filter.consume(&[num(1.0), num(2.0), num(3.0)]).is_err());
    assert_eq!(
        ChannelFilter::new(strings(&["a", "a"])).init(&strings(&["a"])),
        Err("Channel filter contains duplicate name 'a'".to_owned())
    );
    assert_eq!(
        ChannelFilter::new(strings(&["z"])).init(&strings(&["a"])),
        Err("Channel filter requested missing channel 'z'".to_owned())
    );
}

#[test]
fn decimation_forwards_every_nth_row() {
    let mut decimation = DecimationDispatcher::new(3);
    assert!(decimation.consume().is_err());
    decimation.init(true);
    let forwarded: Vec<bool> = (0..7).map(|_| decimation.consume().unwrap()).collect();
    assert_eq!(forwarded.iter().filter(|f| **f).count(), 7 / 3 + usize::from(forwarded[0]));
    for i in 3..7 {
        assert_eq!(forwarded[i], forwarded[i - 3]);
    }
    decimation.terminate();
    assert!(decimation.consume().is_err());
    decimation.init(false);
    assert!(decimation.consume().is_err());
}

#[test]
fn low_pass_primes_once() {
    let mut filter = LowPassDispatcher::new();
    assert!(filter.consume().is_err());
    filter.init(true);
    assert_eq!(filter.consume(), Ok(FilterStep::Prime));
    assert_eq!(filter.consume(), Ok(FilterStep::Step));
    filter.terminate();
    assert!(filter.consume().is_err());
    assert!(LowPassDispatcher::check_period(1).is_ok());
    assert_eq!(
        LowPassDispatcher::check_period(0),
        Err("dt_ns must be > 0".to_owned())
    );
}

#[test]
fn data_frames_hold_rows_up_to_their_size() {
    let mut frame = DataFrameDispatcher::new(1, Overflow::Wrap);
    frame.init(strings(&["x"]));
    assert_eq!(frame.nrows, 1024 * 1024 / 46);
    frame.nrows = 2;
    for i in 0..3 {
        frame.consume(EPOCH, i, vec![num(i as f64)]).unwrap();
    }
    assert_eq!(frame.df.timestamp(), [2, 1]);
    assert_eq!(frame.df.column(0), [num(2.0), num(1.0)]);
    assert_eq!(frame.df.column(1), []);
    assert_eq!(frame.df.time()[0], "1970-01-01T00:00:00.000000000Z");
    assert_eq!(frame.df.headers(), ["timestamp", "time", "x"]);
    for i in 3..6 {
        frame.consume(EPOCH, i, vec![num(i as f64)]).unwrap();
    }
    assert_eq!(frame.df.timestamp(), [4, 5]);
    frame.terminate();
    assert_eq!(frame.df.len(), 2);
    frame.init(strings(&["y"]));
    assert_eq!(frame.df.len(), 0);

    let mut frame = DataFrameDispatcher::new(1, Overflow::Error);
    frame.init(strings(&["x"]));
    frame.nrows = 1;
    assert!(frame.consume(EPOCH, 1, vec![]).is_ok());
    assert_eq!(
        frame.consume(EPOCH, 2, vec![]),
        Err("DataFrame out of memory".to_owned())
    );
    assert_eq!(frame.df.len(), 1);
}

#[test]
fn data_frame_rows_are_placed() {
    let row = |timestamp: i64| Row::new(EPOCH, timestamp, vec![]);
    let mut df = SimpleDataFrame::new(strings(&["x"]), 2);
    df.push(row(0));
    df.push(row(1));
    df.put(row(10), 0);
    df.put(row(2), 9);
    let stamps: Vec<i64> = df.rows().iter().map(|r| r.timestamp).collect();
    assert_eq!(stamps, [10, 1, 2]);
}

#[test]
fn latest_value_keeps_the_last_row() {
    let mut latest = LatestValueDispatcher::new();
    assert!(latest.consume(EPOCH, 1, vec![num(1.0)]).is_err());
    latest.init(strings(&["x"]));
    assert!(latest.row.channel_values.iter().all(|x| x.is_nan()));
    latest.consume(EPOCH, 1, vec![num(1.0)]).unwrap();
    latest.consume(EPOCH, 2, vec![num(2.0)]).unwrap();
    assert_eq!(latest.row.timestamp, 2);
    assert_eq!(latest.row.channel_values, [num(2.0)]);
    assert!(latest.headers().contains(&"x".to_owned()));
    latest.terminate();
    assert!(latest.consume(EPOCH, 3, vec![num(3.0)]).is_err());
}

#[test]
fn reports_carry_schema_rows_and_an_end() {
    let mut reporting = ReportingDispatcher::new(1_000);
    assert_eq!(reporting.schema_frame(0), None);
    reporting.init(Schema {
        channel_names: strings(&["x"]),
        channel_units: vec![None],
        monotonic_epoch_ns: 5,
    });
    let schema = |end: bool| ReportingMessage::Schema {
        channel_names: strings(&["x"]),
        channel_units: vec![None],
        monotonic_epoch_ns: 5,
        is_session_end: end,
    };
    let frame = reporting.schema_frame(10).unwrap();
    assert_eq!(ReportingMessage::decode(&frame).unwrap(), schema(false));
    assert_eq!(reporting.schema_frame(1_009), None);
    assert!(reporting.schema_frame(1_010).is_some());
    for seq in 0..2 {
        let frame = reporting.row_frame(EPOCH, num(0.5), vec![num(1.5)]);
        assert_eq!(
            ReportingMessage::decode(&frame).unwrap(),
            ReportingMessage::Row {
                seq,
                timestamp: num(0.5),
                system_time: "1970-01-01T00:00:00.000000000Z".to_owned(),
                values: vec![num(1.5)],
            }
        );
    }
    assert!(!reporting.row_sent(SendOutcome::Sent, 0));
    assert!(!reporting.row_sent(SendOutcome::WouldBlock, 0));
    assert!(reporting.row_sent(SendOutcome::Failed, 0));
    assert!(!reporting.row_sent(SendOutcome::Failed, 999_999_999));
    assert!(reporting.schema_sent(SendOutcome::Failed, 1_000_000_000));
    assert_eq!(reporting.dropped_frames(), 3);
    let frame = reporting.terminate().unwrap();
    assert_eq!(ReportingMessage::decode(&frame).unwrap(), schema(true));
    assert_eq!(reporting.terminate(), None);
    assert_eq!(oversized_row(1), None);
    assert_eq!(oversized_row(175), Some(1_464));
    assert_eq!(oversized_row(174), None);
}

#[test]
fn reports_count_rows_whatever_the_sends_give() {
    let mut reporting = ReportingDispatcher::new(1_000);
    reporting.init(Schema {
        channel_names: strings(&["x"]),
        channel_units: vec![None],
        monotonic_epoch_ns: 5,
    });
    let outcomes = [SendOutcome::Sent, SendOutcome::WouldBlock, SendOutcome::Failed];
    let mut schemas = Vec::new();
    for call in 0..9_u64 {
        let now = call * 400;
        if reporting.schema_frame(now).is_some() {
            schemas.push(call);
            reporting.schema_sent(SendOutcome::Failed, now);
        }
        let frame = reporting.row_frame(EPOCH, num(0.5), vec![num(1.5)]);
        match ReportingMessage::decode(&frame).unwrap() {
            ReportingMessage::Row { seq, .. } => assert_eq!(seq, call),
            other => panic!("{other:?}"),
        }
        reporting.row_sent(outcomes[call as usize % 3], now);
    }
    assert_eq!(schemas, [0, 3, 6]);
    assert_eq!(reporting.dropped_frames(), 6);
}

#[test]
fn default_chunk_interval_is_quarter_retention() {
    assert_eq!(
        effective_chunk_interval(Span::from_secs(10), None).unwrap(),
        Span::from_millis(2500)
    );
}

#[test]
fn explicit_chunk_interval_overrides_default() {
    let interval = Span::from_secs(90);
    assert_eq!(
        effective_chunk_interval(Span::from_secs(10), Some(interval)).unwrap(),
        interval
    );
}

#[test]
fn sql_interval_literal_keeps_subsecond_precision() {
    assert_eq!(
        sql_interval_literal(Span::from_millis(1500)),
        "1.500000000 seconds"
    );
}

#[test]
fn duration_from_nanos_preserves_subsecond_values() {
    assert_eq!(
        duration_from_nanos(2_500_000_000).unwrap(),
        Span::from_millis(2500)
    );
}

#[test]
fn policy_query_reconciles_retention_on_existing_tables() {
    let sql = timescaledb_policy_query("demo", Span::from_secs(600), Span::from_secs(150));
    assert!(sql.contains("set_chunk_time_interval"));
    assert!(sql.contains("remove_retention_policy"));
    assert!(sql.contains("if_exists => true"));
    assert!(sql.contains("add_retention_policy"));
    assert!(sql.contains("drop_after => INTERVAL '600 seconds'"));
}

#[test]
fn database_queries_are_exact() {
    let names = strings(&["a", "b"]);
    assert_eq!(existence_query("run"), "SELECT 1 FROM public.run;");
    let day = Span::from_secs(86_400);
    let created = table_query(false, "run", &names, day, day);
    assert!(created.contains("CREATE TABLE \"run\""));
    assert!(created.contains("\"a\" DOUBLE PRECISION,\n"));
    assert!(created.contains(&timescaledb_policy_query("run", day, day)));
    let kept = table_query(true, "run", &names, day, day);
    assert!(!kept.contains("CREATE TABLE"));
    assert!(copy_query("run", &names).contains("\"b\""));
    assert!(insert_query("run", &names).contains("$4"));
    assert!(!insert_query("run", &names).contains("$5"));
    assert_eq!(split_host("db.local:6000"), ("db.local".to_owned(), Some("6000".to_owned())));
    assert_eq!(split_host("db.local"), ("db.local".to_owned(), None));
    assert_eq!(
        connection_string("d", "h", "u", "p"),
        "dbname=d host=h port=5432 user=u password=p"
    );
    assert_eq!(
        connection_string("d", "h:1", "u", "p"),
        "dbname=d host=h port=1 user=u password=p"
    );
}

#[test]
fn intervals_and_durations_have_limits() {
    assert!(effective_chunk_interval(Span::from_nanos(3), None).is_err());
    assert!(effective_chunk_interval(Span::from_secs(1), Some(Span::from_secs(0))).is_err());
    assert!(duration_from_nanos(u128::MAX).is_err());
    let settings = TimescaleDbDispatcher::new(
        "d",
        "h",
        "u",
        "t",
        Span::from_secs(1),
        Span::from_secs(2),
    )
    .with_chunk_interval(Span::from_secs(3));
    assert_eq!(settings.chunk_interval, Some(Span::from_secs(3)));
    assert_eq!(settings.token_name, "t");
}

#[test]
fn batches_keep_all_rows() {
    assert_eq!(batch_size(Span::from_secs(1), 100_000_000), 10);
    assert_eq!(batch_size(Span::from_nanos(0), 100), 1);
    let mut batch = Batch::new(2);
    let mut out = String::new();
    for line in ["a\n", "b\n", "c\n"] {
        if let Some(lines) = batch.push(line) {
            out.push_str(&lines);
        }
    }
    assert_eq!(out, "a\nb\n");
    out.push_str(&batch.finish());
    assert_eq!(out, "a\nb\nc\n");
    assert_ne!(Batch::new(1).use_copy(), Batch::new(1_000).use_copy());
}

#[test]
fn errors_on_insufficient_points() {
    let result = check_fit(&points(&[(0.0, 1.0), (1.0, 2.0)]), 2);
    assert!(result.is_err());
}

#[test]
fn fits_are_checked_before_and_after() {
    let enough = [(-2.0, -0.8), (-1.0, 0.3), (0.0, 1.0), (1.0, 1.3), (2.0, 1.2)];
    assert_eq!(check_fit(&points(&enough), 2), Ok(3));
    assert_eq!(
        check_fit(&[], 0),
        Err("Polynomial fit requires at least one calibration point".to_owned())
    );
    assert_eq!(
        check_fit(&points(&enough), 7),
        Err("Polynomial fit of order 7 requires at least 8 points; got 5".to_owned())
    );
    assert_eq!(
        check_fit(&points(&[(0.0, f64::NAN)]), 0),
        Err("Polynomial fit requires finite calibration points".to_owned())
    );
    assert_eq!(check_outcome(true, "", "", vec![num(1.0)]), Ok(vec![num(1.0)]));
    assert_eq!(
        check_outcome(false, "LostPatience", "1.5", vec![]),
        Err("Polynomial fit failed: LostPatience (objective 1.5)".to_owned())
    );
    assert_eq!(
        check_outcome(true, "", "", vec![num(f64::INFINITY)]),
        Err("Polynomial fit produced non-finite coefficients".to_owned())
    );
}
