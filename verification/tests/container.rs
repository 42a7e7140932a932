use std::cell::RefCell;
use std::rc::Rc;

use opencloudtiles::container::extension_of;
use opencloudtiles::{ContainerProvider, Convert, ConvertError, Converter, IoFailure,
    Precompression, Reader, TileBBoxPyramide, TileCoord3, TileFormat, Tools};

type Log = Rc<RefCell<Vec<String>>>;

struct MockReader {
    pyramide: TileBBoxPyramide,
}

impl Reader for MockReader {
    fn get_bbox_pyramide(&self) -> &TileBBoxPyramide {
        &self.pyramide
    }

    fn get_tile_data(&mut self, _coord: &TileCoord3) -> Option<Vec<u8>> {
        None
    }
}

struct MockConverter {
    log: Log,
}

impl Converter<MockReader> for MockConverter {
    fn set_precompression(&mut self, precompression: &Precompression) {
        self.log.borrow_mut().push(format!("set_precompression {:?}", precompression));
    }

    fn set_minimum_zoom(&mut self, zoom: u64) {
        self.log.borrow_mut().push(format!("set_minimum_zoom {zoom}"));
    }

    fn set_maximum_zoom(&mut self, zoom: u64) {
        self.log.borrow_mut().push(format!("set_maximum_zoom {zoom}"));
    }

    fn convert_from(&mut self, _reader: MockReader) -> Result<(), IoFailure> {
        self.log.borrow_mut().push("convert_from".to_owned());
        Ok(())
    }
}

struct MockProvider {
    log: Log,
    fail_reader: bool,
}

impl ContainerProvider for MockProvider {
    type R = MockReader;
    type C = MockConverter;

    fn new_reader(&mut self, format: TileFormat, filename: &str) -> Result<MockReader, IoFailure> {
        self.log.borrow_mut().push(format!("new_reader {:?} {filename}", format));
        if self.fail_reader {
            Err(IoFailure { message: "cannot open container".to_owned() })
        } else {
            Ok(MockReader { pyramide: TileBBoxPyramide::new_empty() })
        }
    }

    fn new_converter(
        &mut self,
        format: TileFormat,
        filename: &str,
    ) -> Result<MockConverter, IoFailure> {
        self.log.borrow_mut().push(format!("new_converter {:?} {filename}", format));
        Ok(MockConverter { log: self.log.clone() })
    }
}

fn provider() -> (MockProvider, Log) {
    let log: Log = Rc::new(RefCell::new(Vec::new()));
    (MockProvider { log: log.clone(), fail_reader: false }, log)
}

fn command(input: &str, output: &str) -> Convert {
    Convert {
        input_file: input.to_owned(),
        output_file: output.to_owned(),
        min_zoom: None,
        max_zoom: None,
        precompress: None,
    }
}

#[test]
fn convert_selects_formats_by_extension() {
    let (mut provider, log) = provider();
    let command = command("data/input.cloudtiles", "out/result.mbtiles");
    let result = Tools::convert(&command, &mut provider);
    assert!(result.is_ok());
    assert_eq!(
        *log.borrow(),
        vec![
            "new_reader Cloudtiles data/input.cloudtiles".to_owned(),
            "new_converter Mbtiles out/result.mbtiles".to_owned(),
            "convert_from".to_owned(),
        ]
    );
}

#[test]
fn unknown_output_extension_aborts_before_output_is_created() {
    let (mut provider, log) = provider();
    let command = command("input.mbtiles", "result.xyz");
    let result = Tools::convert(&command, &mut provider);
    assert!(matches!(result, Err(ConvertError::UnknownOutputFormat)));
    assert_eq!(
        *log.borrow(),
        vec!["new_reader Mbtiles input.mbtiles".to_owned()],
        "no converter may be opened for an unusable output path"
    );
}

#[test]
fn unknown_input_extension_aborts_before_anything_is_opened() {
    let (mut provider, log) = provider();
    for input in ["input.tar", "input.xyz", "input", ".hidden", "input."] {
        let command = command(input, "result.mbtiles");
        let result = Tools::convert(&command, &mut provider);
        assert!(matches!(result, Err(ConvertError::UnknownInputFormat)), "input {input:?}");
    }
    assert!(log.borrow().is_empty());
}

#[test]
fn output_accepts_archive_and_wildcard_sinks() {
    for (output, expected) in [
        ("result.tar", "new_converter Tar result.tar"),
        ("result.*", "new_converter Unknown result.*"),
        ("result.cloudtiles", "new_converter Cloudtiles result.cloudtiles"),
    ] {
        let (mut provider, log) = provider();
        let command = command("input.mbtiles", output);
        assert!(Tools::convert(&command, &mut provider).is_ok());
        assert_eq!(log.borrow()[1], expected);
    }
}

#[test]
fn configuration_is_applied_in_order_and_only_when_present() {
    let (mut configured_provider, log) = provider();
    let mut configured = command("input.cloudtiles", "result.tar");
    configured.precompress = Some(Precompression::Gzip);
    configured.min_zoom = Some(5);
    configured.max_zoom = Some(3);
    assert!(Tools::convert(&configured, &mut configured_provider).is_ok());
    assert_eq!(
        log.borrow()[2..].to_vec(),
        vec![
            "set_precompression Gzip".to_owned(),
            "set_minimum_zoom 5".to_owned(),
            "set_maximum_zoom 3".to_owned(),
            "convert_from".to_owned(),
        ]
    );

    let (mut bare_provider, bare_log) = provider();
    let bare = command("input.cloudtiles", "result.tar");
    assert!(Tools::convert(&bare, &mut bare_provider).is_ok());
    assert_eq!(bare_log.borrow()[2], "convert_from", "absent configuration calls no setter");
}

#[test]
fn reader_io_failure_is_propagated() {
    let log: Log = Rc::new(RefCell::new(Vec::new()));
    let mut failing = MockProvider { log: log.clone(), fail_reader: true };
    let command = command("input.mbtiles", "result.mbtiles");
    let result = Tools::convert(&command, &mut failing);
    match result {
        Err(ConvertError::Io(failure)) => assert_eq!(failure.message, "cannot open container"),
        other => panic!("expected an I/O failure, got {other:?}"),
    }
}

#[test]
fn new_reader_and_new_converter_report_their_own_role() {
    let (mut p1, _log1) = provider();
    let reader = Tools::new_reader("a/b/tiles.cloudtiles", &mut p1);
    assert!(reader.is_ok());
    let bad = Tools::new_reader("a/b/tiles", &mut p1);
    assert!(matches!(bad, Err(ConvertError::UnknownInputFormat)));

    let (mut p2, _log2) = provider();
    let cmd = command("x.mbtiles", "y.tar");
    let converter = Tools::new_converter("y.tar", &cmd, &mut p2);
    assert!(converter.is_ok());
    let bad = Tools::new_converter("y.zip", &cmd, &mut p2);
    assert!(matches!(bad, Err(ConvertError::UnknownOutputFormat)));
}

#[test]
fn format_from_extension_matches_the_supported_set() {
    assert_eq!(TileFormat::from_extension("mbtiles"), Some(TileFormat::Mbtiles));
    assert_eq!(TileFormat::from_extension("cloudtiles"), Some(TileFormat::Cloudtiles));
    assert_eq!(TileFormat::from_extension("tar"), Some(TileFormat::Tar));
    assert_eq!(TileFormat::from_extension("*"), Some(TileFormat::Unknown));
    assert_eq!(TileFormat::from_extension("zip"), None);
    assert_eq!(TileFormat::from_extension("MBTILES"), None);
    assert_eq!(TileFormat::from_extension(""), None);
}

#[test]
fn extension_of_follows_file_name_rules() {
    assert_eq!(extension_of("file.mbtiles"), Some("mbtiles"));
    assert_eq!(extension_of("dir/file.tar"), Some("tar"));
    assert_eq!(extension_of("a.b/file"), None, "a dot in a directory is not an extension");
    assert_eq!(extension_of("archive.tar.gz"), Some("gz"));
    assert_eq!(extension_of(".hidden"), None);
    assert_eq!(extension_of("dir/.hidden"), None);
    assert_eq!(extension_of("name."), Some(""));
    assert_eq!(extension_of("plain"), None);
    assert_eq!(extension_of(""), None);
}
