//! Output container formats and the output file name that goes with them.
use vstd::prelude::*;
use vstd::string::StringExecFns;
use vstd::string::StrSliceExecFns;

verus! {

/// The output container formats that can be chosen.
#[derive(Debug, Clone, Copy, PartialEq, Eq, Structural)]
pub enum Format {
    Mp4,
    Avi,
    Mkv,
    Mov,
    Wmv,
    Flv,
}

/// The number of formats, in the order of `Format::from_index`.
pub const FORMAT_COUNT: usize = 6;

impl Format {
    /// The format at a place in the list shown to the user.
    pub fn from_index(i: usize) -> (r: Option<Format>)
        ensures
            r is Some <==> i < FORMAT_COUNT,
            i == 0 ==> r == Some(Format::Mp4),
            i == 1 ==> r == Some(Format::Avi),
            i == 2 ==> r == Some(Format::Mkv),
            i == 3 ==> r == Some(Format::Mov),
            i == 4 ==> r == Some(Format::Wmv),
            i == 5 ==> r == Some(Format::Flv),
    {
        if i == 0 {
            Some(Format::Mp4)
        } else if i == 1 {
            Some(Format::Avi)
        } else if i == 2 {
            Some(Format::Mkv)
        } else if i == 3 {
            Some(Format::Mov)
        } else if i == 4 {
            Some(Format::Wmv)
        } else if i == 5 {
            Some(Format::Flv)
        } else {
            None
        }
    }

    /// The name shown to the user.
    pub open spec fn spec_name(self) -> Seq<char> {
        match self {
            Format::Mp4 => "MP4"@,
            Format::Avi => "AVI"@,
            Format::Mkv => "MKV"@,
            Format::Mov => "MOV"@,
            Format::Wmv => "WMV"@,
            Format::Flv => "FLV"@,
        }
    }

    /// The canonical extension without its dot, in lower case.
    pub open spec fn spec_bare_extension(self) -> Seq<char> {
        match self {
            Format::Mp4 => seq!['m', 'p', '4'],
            Format::Avi => seq!['a', 'v', 'i'],
            Format::Mkv => seq!['m', 'k', 'v'],
            Format::Mov => seq!['m', 'o', 'v'],
            Format::Wmv => seq!['w', 'm', 'v'],
            Format::Flv => seq!['f', 'l', 'v'],
        }
    }

    /// The canonical extension with its leading dot, such as `.mkv`.
    pub open spec fn spec_extension(self) -> Seq<char> {
        seq!['.'] + self.spec_bare_extension()
    }

    /// The name shown to the user, such as `MKV`.
    pub fn name(&self) -> (r: &'static str)
        ensures
            r@ == self.spec_name(),
    {
        match self {
            Format::Mp4 => "MP4",
            Format::Avi => "AVI",
            Format::Mkv => "MKV",
            Format::Mov => "MOV",
            Format::Wmv => "WMV",
            Format::Flv => "FLV",
        }
    }

    /// The canonical extension with its leading dot, such as `.mkv`.
    pub fn extension(&self) -> (r: &'static str)
        ensures
            r@ == self.spec_extension(),
    {
        let r: &'static str = match self {
            Format::Mp4 => ".mp4",
            Format::Avi => ".avi",
            Format::Mkv => ".mkv",
            Format::Mov => ".mov",
            Format::Wmv => ".wmv",
            Format::Flv => ".flv",
        };
        proof {
            reveal_strlit(".mp4");
            reveal_strlit(".avi");
            reveal_strlit(".mkv");
            reveal_strlit(".mov");
            reveal_strlit(".wmv");
            reveal_strlit(".flv");
        }
        assert(r@ =~= self.spec_extension());
        r
    }
}

/// Two characters are equal once ASCII upper case is folded to lower case.
pub open spec fn same_letter(a: char, b: char) -> bool {
    ||| a == b
    ||| ('A' <= a <= 'Z' && a as u32 + 32 == b as u32)
    ||| ('A' <= b <= 'Z' && b as u32 + 32 == a as u32)
}

/// Two texts are equal once ASCII upper case is folded to lower case.
pub open spec fn same_ignoring_case(a: Seq<char>, b: Seq<char>) -> bool {
    a.len() == b.len() && forall|i: int| 0 <= i < a.len() ==> same_letter(a[i], b[i])
}

fn chars_same_ignoring_case(a: char, b: char) -> (r: bool)
    ensures
        r == same_letter(a, b),
{
    let x: u32 = a as u32;
    let y: u32 = b as u32;
    x == y || (65 <= x && x <= 90 && x + 32 == y) || (65 <= y && y <= 90 && y + 32 == x)
}

/// Whether `a` and `b` are equal once ASCII upper case is folded to lower case.
pub fn eq_ignoring_case(a: &str, b: &str) -> (r: bool)
    ensures
        r == same_ignoring_case(a@, b@),
{
    let n: usize = a.unicode_len();
    if n != b.unicode_len() {
        return false;
    }
    let mut i: usize = 0;
    while i < n
        invariant
            i <= n,
            n == a@.len(),
            n == b@.len(),
            forall|j: int| 0 <= j < i ==> same_letter(a@[j], b@[j]),
        decreases n - i,
    {
        if !chars_same_ignoring_case(a.get_char(i), b.get_char(i)) {
            return false;
        }
        i += 1;
    }
    true
}

/// What `std::path::Path::extension` gives for a path: the part of its file
/// name after the last `.`, if it has one.
pub uninterp spec fn path_extension_of(p: Seq<char>) -> Option<Seq<char>>;

/// What `std::path::Path::file_stem` gives for a path: its file name without
/// the extension, if it has a file name.
pub uninterp spec fn path_stem_of(p: Seq<char>) -> Option<Seq<char>>;

/// Relies on `std::path::Path::extension`: the extension of the file name,
/// which depends on the path's text alone.
#[verifier::external_body]
fn path_extension(p: &str) -> (r: Option<String>)
    ensures
        match r {
            Some(e) => path_extension_of(p@) == Some(e@),
            None => path_extension_of(p@) is None,
        },
{
    std::path::Path::new(p).extension().map(|e| e.to_string_lossy().into_owned())
}

/// Relies on `std::path::Path::file_stem`: the file name without its
/// extension, which depends on the path's text alone.
#[verifier::external_body]
fn path_stem(p: &str) -> (r: Option<String>)
    ensures
        match r {
            Some(s) => path_stem_of(p@) == Some(s@),
            None => path_stem_of(p@) is None,
        },
{
    std::path::Path::new(p).file_stem().map(|s| s.to_string_lossy().into_owned())
}

/// The output path once its extension agrees with the format, given the
/// path's extension and file stem: the canonical extension is appended when
/// there is no extension, and joined to the stem when the extension differs
/// from it other than in case.
pub open spec fn output_for(
    p: Seq<char>,
    extension: Option<Seq<char>>,
    stem: Option<Seq<char>>,
    format: Format,
) -> Seq<char> {
    match extension {
        None => p + format.spec_extension(),
        Some(e) => if same_ignoring_case(e, format.spec_bare_extension()) {
            p
        } else {
            match stem {
                Some(st) => st + format.spec_extension(),
                None => p,
            }
        },
    }
}

/// The output path with the extension of the chosen format, as `std::path`
/// splits it into file stem and extension.
pub open spec fn normalized_output(p: Seq<char>, format: Format) -> Seq<char> {
    output_for(p, path_extension_of(p), path_stem_of(p), format)
}

/// The output path for `format`, given the extension and file stem of
/// `output`.
pub fn output_from_parts(
    output: &str,
    extension: Option<&str>,
    stem: Option<&str>,
    format: Format,
) -> (r: String)
    ensures
        r@ == output_for(
            output@,
            match extension {
                Some(e) => Some(e@),
                None => None,
            },
            match stem {
                Some(st) => Some(st@),
                None => None,
            },
            format,
        ),
{
    let ext: &'static str = format.extension();
    match extension {
        None => {
            let mut r: String = String::from_str(output);
            r.append(ext);
            r
        },
        Some(e) => {
            let bare: &str = ext.substring_char(1, ext.unicode_len());
            assert(bare@ =~= format.spec_bare_extension());
            if eq_ignoring_case(e, bare) {
                String::from_str(output)
            } else {
                match stem {
                    Some(st) => {
                        let mut r: String = String::from_str(st);
                        r.append(ext);
                        r
                    },
                    None => String::from_str(output),
                }
            }
        },
    }
}

/// The output path with the extension of the chosen format.
pub fn normalize_output(output: &str, format: Format) -> (r: String)
    ensures
        r@ == normalized_output(output@, format),
{
    let extension: Option<String> = path_extension(output);
    let stem: Option<String> = path_stem(output);
    let e: Option<&str> = match &extension {
        Some(e) => Some(e.as_str()),
        None => None,
    };
    let st: Option<&str> = match &stem {
        Some(st) => Some(st.as_str()),
        None => None,
    };
    output_from_parts(output, e, st, format)
}

} // verus!
