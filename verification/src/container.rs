use vstd::prelude::*;
use vstd::string::StrSliceExecFns;
use crate::tile_bbox_pyramide::TileBBoxPyramide;
use crate::tile_coords::TileCoord3;

verus! {

/// The container formats a file name can select, by its extension.
/// `Unknown` is the wildcard sink (`*`), accepted for output only.
#[derive(Debug, Clone, Copy, PartialEq, Eq, Structural)]
pub enum TileFormat {
    Mbtiles,
    Cloudtiles,
    Tar,
    Unknown,
}

/// A tile payload precompression choice, applied at write time.
#[derive(Debug, Clone, Copy, PartialEq, Eq, Structural)]
pub enum Precompression {
    Uncompressed,
    Gzip,
    Brotli,
}

/// The configuration a conversion run consumes: the two paths, an optional
/// precompression choice and optional zoom clamps.
#[derive(Debug, Clone)]
pub struct Convert {
    pub input_file: String,
    pub output_file: String,
    pub min_zoom: Option<u64>,
    pub max_zoom: Option<u64>,
    pub precompress: Option<Precompression>,
}

/// An I/O or container-format failure reported by a concrete container.
#[derive(Debug)]
pub struct IoFailure {
    pub message: String,
}

/// Why a conversion run failed: a missing or unrecognized format
/// discriminator on one of the two paths (a configuration error), or an I/O
/// failure propagated from a container.
#[derive(Debug)]
pub enum ConvertError {
    UnknownInputFormat,
    UnknownOutputFormat,
    Io(IoFailure),
}

/// A source container: exposes the dataset's coordinate pyramid and its
/// stored tile records. Concrete formats implement this outside the library.
pub trait Reader: Sized {
    fn get_bbox_pyramide(&self) -> &TileBBoxPyramide;

    fn get_tile_data(&mut self, coord: &TileCoord3) -> Option<Vec<u8>>;
}

/// A sink container: accepts configuration before the transfer begins, then
/// drains a reader in one pass. Concrete formats implement this outside the
/// library.
pub trait Converter<R: Reader> {
    fn set_precompression(&mut self, precompression: &Precompression);

    fn set_minimum_zoom(&mut self, zoom: u64);

    fn set_maximum_zoom(&mut self, zoom: u64);

    fn convert_from(&mut self, reader: R) -> Result<(), IoFailure>;
}

/// Opens concrete containers for a selected format; construction fails with
/// an I/O failure when the underlying container cannot be opened or created.
pub trait ContainerProvider {
    type R: Reader;

    type C: Converter<Self::R>;

    fn new_reader(&mut self, format: TileFormat, filename: &str) -> Result<Self::R, IoFailure>;

    fn new_converter(&mut self, format: TileFormat, filename: &str) -> Result<Self::C, IoFailure>;
}

/// The index of the last occurrence of `c` in `s`, or -1 when `s` does not
/// contain it.
pub open spec fn last_index_of(s: Seq<char>, c: char) -> int
    decreases s.len(),
{
    if s.len() == 0 {
        -1
    } else if s[s.len() - 1] == c {
        s.len() - 1
    } else {
        last_index_of(s.drop_last(), c)
    }
}

pub proof fn lemma_last_index_of_bounds(s: Seq<char>, c: char)
    ensures
        -1 <= last_index_of(s, c) < s.len(),
    decreases s.len(),
{
    if s.len() > 0 && s[s.len() - 1] != c {
        lemma_last_index_of_bounds(s.drop_last(), c);
    }
}

/// The file-name extension of a path: the portion of the final path segment
/// after its last dot. A segment without a dot, or with its only dot leading
/// (a hidden file), has no extension.
pub open spec fn spec_extension_of(path: Seq<char>) -> Option<Seq<char>> {
    let name_start = last_index_of(path, '/') + 1;
    let name = path.subrange(name_start, path.len() as int);
    let dot = last_index_of(name, '.');
    if dot <= 0 {
        None
    } else {
        Some(name.subrange(dot + 1, name.len() as int))
    }
}

/// Which format an extension selects.
pub open spec fn spec_format_of(extension: Seq<char>) -> Option<TileFormat> {
    if extension == "mbtiles"@ {
        Some(TileFormat::Mbtiles)
    } else if extension == "cloudtiles"@ {
        Some(TileFormat::Cloudtiles)
    } else if extension == "tar"@ {
        Some(TileFormat::Tar)
    } else if extension == "*"@ {
        Some(TileFormat::Unknown)
    } else {
        None
    }
}

/// The reader format a path selects: only parseable containers are accepted
/// as input.
pub open spec fn spec_reader_format(path: Seq<char>) -> Option<TileFormat> {
    match spec_extension_of(path) {
        None => None,
        Some(e) => match spec_format_of(e) {
            None => None,
            Some(f) => if f == TileFormat::Mbtiles || f == TileFormat::Cloudtiles {
                Some(f)
            } else {
                None
            },
        },
    }
}

/// The converter format a path selects: any supported format, the archive
/// format and the wildcard sink included.
pub open spec fn spec_converter_format(path: Seq<char>) -> Option<TileFormat> {
    match spec_extension_of(path) {
        None => None,
        Some(e) => spec_format_of(e),
    }
}

/// Character-wise equality of two string slices.
fn str_equal(a: &str, b: &str) -> (r: bool)
    ensures
        r == (a@ == b@),
{
    let a_len = a.unicode_len();
    let b_len = b.unicode_len();
    if a_len != b_len {
        return false;
    }
    let mut i: usize = 0;
    while i < a_len
        invariant
            a_len == a@.len(),
            b_len == b@.len(),
            a_len == b_len,
            i <= a_len,
            forall|j: int| 0 <= j < i ==> a@[j] == b@[j],
        decreases a_len - i,
    {
        if a.get_char(i) != b.get_char(i) {
            return false;
        }
        i = i + 1;
    }
    proof {
        assert(a@ =~= b@);
    }
    true
}

/// The index of the last occurrence of `c` in `s`, searched from the end.
fn last_index_of_char(s: &str, c: char) -> (r: Option<usize>)
    ensures
        match r {
            Some(i) => last_index_of(s@, c) == i,
            None => last_index_of(s@, c) == -1,
        },
{
    let len = s.unicode_len();
    let mut i: usize = len;
    proof {
        assert(s@.subrange(0, len as int) =~= s@);
    }
    while i > 0
        invariant
            len == s@.len(),
            i <= len,
            last_index_of(s@, c) == last_index_of(s@.subrange(0, i as int), c),
        decreases i,
    {
        let ch = s.get_char(i - 1);
        proof {
            assert(s@.subrange(0, i as int)[i - 1] == s@[i - 1]);
            assert(s@.subrange(0, i as int).drop_last() =~= s@.subrange(0, i as int - 1));
        }
        if ch == c {
            return Some(i - 1);
        }
        i = i - 1;
    }
    proof {
        assert(s@.subrange(0, 0) =~= Seq::<char>::empty());
    }
    None
}

/// The file-name extension of `path`, as `spec_extension_of` defines it.
pub fn extension_of(path: &str) -> (r: Option<&str>)
    ensures
        match r {
            Some(e) => spec_extension_of(path@) == Some(e@),
            None => spec_extension_of(path@) is None,
        },
{
    let len = path.unicode_len();
    proof {
        lemma_last_index_of_bounds(path@, '/');
    }
    let name_start = match last_index_of_char(path, '/') {
        Some(i) => i + 1,
        None => 0,
    };
    let name = path.substring_char(name_start, len);
    let name_len = name.unicode_len();
    proof {
        lemma_last_index_of_bounds(name@, '.');
    }
    match last_index_of_char(name, '.') {
        Some(dot) => {
            if dot > 0 {
                Some(name.substring_char(dot + 1, name_len))
            } else {
                None
            }
        },
        None => None,
    }
}

impl TileFormat {
    /// The format an extension selects, or `None` for an unsupported one.
    pub fn from_extension(extension: &str) -> (r: Option<TileFormat>)
        ensures
            r == spec_format_of(extension@),
    {
        if str_equal(extension, "mbtiles") {
            Some(TileFormat::Mbtiles)
        } else if str_equal(extension, "cloudtiles") {
            Some(TileFormat::Cloudtiles)
        } else if str_equal(extension, "tar") {
            Some(TileFormat::Tar)
        } else if str_equal(extension, "*") {
            Some(TileFormat::Unknown)
        } else {
            None
        }
    }
}

/// The conversion dispatcher: selects a reader and a converter by file
/// extension, applies the configuration, and drives the transfer.
pub struct Tools;

impl Tools {
    /// Selects the input format from the file name's extension and has the
    /// provider open that container for reading. A missing or unsupported
    /// input extension is a configuration error, reported as
    /// `UnknownInputFormat`.
    pub fn new_reader<P: ContainerProvider>(filename: &str, provider: &mut P) -> (r: Result<
        P::R,
        ConvertError,
    >)
        ensures
            r matches Err(ConvertError::UnknownInputFormat) <==> spec_reader_format(filename@)
                is None,
            !(r matches Err(ConvertError::UnknownOutputFormat)),
    {
        let extension = extension_of(filename);
        let format_opt = match extension {
            Some(e) => TileFormat::from_extension(e),
            None => None,
        };
        let format = match format_opt {
            Some(TileFormat::Mbtiles) => TileFormat::Mbtiles,
            Some(TileFormat::Cloudtiles) => TileFormat::Cloudtiles,
            _ => {
                return Err(ConvertError::UnknownInputFormat);
            },
        };
        match provider.new_reader(format, filename) {
            Ok(reader) => Ok(reader),
            Err(failure) => Err(ConvertError::Io(failure)),
        }
    }

    /// Selects the output format from the file name's extension, has the
    /// provider open that container for writing, then applies, in this
    /// order: precompression, minimum zoom, maximum zoom — each only when
    /// configured. A missing or unsupported output extension is a
    /// configuration error, reported as `UnknownOutputFormat`.
    pub fn new_converter<P: ContainerProvider>(
        filename: &str,
        command: &Convert,
        provider: &mut P,
    ) -> (r: Result<P::C, ConvertError>)
        ensures
            r matches Err(ConvertError::UnknownOutputFormat) <==> spec_converter_format(filename@)
                is None,
            !(r matches Err(ConvertError::UnknownInputFormat)),
    {
        let extension = extension_of(filename);
        let format_opt = match extension {
            Some(e) => TileFormat::from_extension(e),
            None => None,
        };
        let format = match format_opt {
            Some(f) => f,
            None => {
                return Err(ConvertError::UnknownOutputFormat);
            },
        };
        let mut converter = match provider.new_converter(format, filename) {
            Ok(converter) => converter,
            Err(failure) => {
                return Err(ConvertError::Io(failure));
            },
        };
        if command.precompress.is_some() {
            converter.set_precompression(command.precompress.as_ref().unwrap());
        }
        if command.min_zoom.is_some() {
            converter.set_minimum_zoom(command.min_zoom.unwrap());
        }
        if command.max_zoom.is_some() {
            converter.set_maximum_zoom(command.max_zoom.unwrap());
        }
        Ok(converter)
    }

    /// Runs one conversion: resolves the reader, then the converter, then
    /// drains the reader into the converter in a single pass. Any failure
    /// aborts the whole run; a bad input extension is reported before the
    /// output path is even inspected.
    pub fn convert<P: ContainerProvider>(command: &Convert, provider: &mut P) -> (r: Result<
        (),
        ConvertError,
    >)
        ensures
            r matches Err(ConvertError::UnknownInputFormat) <==> spec_reader_format(
                command.input_file@,
            ) is None,
            r matches Err(ConvertError::UnknownOutputFormat) ==> spec_reader_format(
                command.input_file@,
            ) is Some && spec_converter_format(command.output_file@) is None,
            r is Ok ==> spec_reader_format(command.input_file@) is Some && spec_converter_format(
                command.output_file@,
            ) is Some,
            r matches Err(ConvertError::Io(_)) ==> spec_reader_format(command.input_file@)
                is Some,
    {
        let reader = match Tools::new_reader(command.input_file.as_str(), provider) {
            Ok(reader) => reader,
            Err(e) => {
                return Err(e);
            },
        };
        let mut converter = match Tools::new_converter(
            command.output_file.as_str(),
            command,
            provider,
        ) {
            Ok(converter) => converter,
            Err(e) => {
                return Err(e);
            },
        };
        match converter.convert_from(reader) {
            Ok(()) => Ok(()),
            Err(failure) => Err(ConvertError::Io(failure)),
        }
    }
}

} // verus!
