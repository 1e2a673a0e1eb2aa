//! What a map service works out of the texts of a request: the layers named
//! in it, the fields of a bounding box, the format of the picture, and where
//! a tile is kept.
use vstd::prelude::*;
use vstd::string::StrSliceExecFns;
use vstd::string::StringExecFns;

verus! {

/// The `ImageFormat` of the image crate: one of the formats it can write.
#[verifier::external_type_specification]
#[verifier::external_body]
pub struct ExImageFormat(image::ImageFormat);

/// The format that the image crate knows under a MIME type, if any.
pub uninterp spec fn mime_format(mime: Seq<char>) -> Option<image::ImageFormat>;

/// The format that the image crate knows under a file extension, if any.
pub uninterp spec fn extension_format(extension: Seq<char>) -> Option<image::ImageFormat>;

/// `ImageFormat::from_mime_type` of the image crate: a lookup of the text in
/// a fixed table.
#[verifier::external_body]
fn format_from_mime(mime: &String) -> (r: Option<image::ImageFormat>)
    ensures
        r == mime_format(mime@),
{
    image::ImageFormat::from_mime_type(mime)
}

/// `ImageFormat::from_extension` of the image crate: a lookup of the text,
/// in lower case, in a fixed table.
#[verifier::external_body]
fn format_from_extension(extension: &String) -> (r: Option<image::ImageFormat>)
    ensures
        r == extension_format(extension@),
{
    image::ImageFormat::from_extension(extension)
}

/// `ImageFormat::Png` of the image crate, which is also what its table of
/// extensions holds under `png`.
#[verifier::external_body]
fn png_format() -> (r: image::ImageFormat)
    ensures
        Some(r) == extension_format("png"@),
{
    image::ImageFormat::Png
}

/// The format asked for by a text: the one known under the text as a MIME
/// type, else the one known under it as an extension, else PNG; PNG also
/// where no text is given.
pub open spec fn format_of(text: Option<Seq<char>>) -> Option<image::ImageFormat> {
    match text {
        Some(t) => match mime_format(t) {
            Some(format) => Some(format),
            None => match extension_format(t) {
                Some(format) => Some(format),
                None => extension_format("png"@),
            },
        },
        None => extension_format("png"@),
    }
}

/// The format of the picture that a request asks for.
pub fn convert_format(format_str: &Option<String>) -> (r: image::ImageFormat)
    ensures
        Some(r) == format_of(
            match *format_str {
                Some(t) => Some(t@),
                None => None,
            },
        ),
{
    match format_str {
        Some(text) => match format_from_mime(text) {
            Some(format) => format,
            None => match format_from_extension(text) {
                Some(format) => format,
                None => png_format(),
            },
        },
        None => png_format(),
    }
}

/// `String::push` of the standard library: the character is appended.
#[verifier::external_body]
fn push_char(text: &mut String, c: char)
    ensures
        final(text)@ == old(text)@.push(c),
{
    text.push(c);
}

/// The fields that the first `n` characters of a text complete, and the
/// field that they leave open: a separator completes the open field and
/// opens an empty one, every other character is added to the open one.
pub open spec fn fields_upto(s: Seq<char>, sep: char, n: nat) -> (Seq<Seq<char>>, Seq<char>)
    decreases n,
{
    if n == 0 || n > s.len() {
        (Seq::empty(), Seq::empty())
    } else {
        let (done, open) = fields_upto(s, sep, (n - 1) as nat);
        if s[n - 1] == sep {
            (done.push(open), Seq::empty())
        } else {
            (done, open.push(s[n - 1]))
        }
    }
}

/// The fields of a text between its separators, in order. A text without
/// separator is one field; an empty text is one empty field.
pub open spec fn fields_of(s: Seq<char>, sep: char) -> Seq<Seq<char>> {
    let (done, open) = fields_upto(s, sep, s.len());
    done.push(open)
}

/// The views of a sequence of texts.
pub open spec fn text_views(v: Seq<String>) -> Seq<Seq<char>> {
    Seq::new(v.len(), |i: int| v[i]@)
}

/// The fields of a text between its separators, in order.
pub fn split_fields(text: &str, sep: char) -> (fields: Vec<String>)
    ensures
        text_views(fields@) == fields_of(text@, sep),
{
    let mut fields: Vec<String> = Vec::new();
    let mut open = String::new();
    let n: usize = text.unicode_len();
    let mut i: usize = 0;
    assert(text_views(fields@) =~= fields_upto(text@, sep, 0).0);
    while i < n
        invariant
            i <= n,
            n == text@.len(),
            text_views(fields@) == fields_upto(text@, sep, i as nat).0,
            open@ == fields_upto(text@, sep, i as nat).1,
        decreases n - i,
    {
        let c: char = text.get_char(i);
        if c == sep {
            let ghost before = fields@;
            fields.push(open);
            assert(text_views(fields@) =~= text_views(before).push(open@));
            open = String::new();
        } else {
            push_char(&mut open, c);
        }
        i += 1;
    }
    let ghost before = fields@;
    fields.push(open);
    assert(text_views(fields@) =~= text_views(before).push(open@));
    fields
}

/// The four fields of a bounding box written with commas between them, or
/// none where no text is given or the text has another number of fields.
pub fn bbox_fields(bbox_str: &Option<String>) -> (r: Option<Vec<String>>)
    ensures
        match *bbox_str {
            None => r is None,
            Some(text) => if fields_of(text@, ',').len() == 4 {
                r matches Some(fields) && text_views(fields@) == fields_of(text@, ',')
            } else {
                r is None
            },
        },
{
    match bbox_str {
        None => None,
        Some(text) => {
            let fields = split_fields(text.as_str(), ',');
            if fields.len() == 4 {
                Some(fields)
            } else {
                None
            }
        },
    }
}

/// Whether a character may not stand in the name of a file.
pub open spec fn forbidden_in_path(c: char) -> bool {
    c == '\\' || c == ',' || c == ':' || c == '*' || c == '<' || c == '>' || c == '?' || c == '|'
        || c == '"'
}

/// A text with every character that may not stand in the name of a file
/// replaced by a slash.
pub open spec fn sanitized(s: Seq<char>) -> Seq<char> {
    Seq::new(
        s.len(),
        |i: int|
            if forbidden_in_path(s[i]) {
                '/'
            } else {
                s[i]
            },
    )
}

/// A text with every character that may not stand in the name of a file
/// replaced by a slash.
pub fn sanitize(text: &str) -> (r: String)
    ensures
        r@ == sanitized(text@),
{
    let mut out = String::new();
    let n: usize = text.unicode_len();
    let mut i: usize = 0;
    while i < n
        invariant
            i <= n,
            n == text@.len(),
            out@ == sanitized(text@).take(i as int),
        decreases n - i,
    {
        let c: char = text.get_char(i);
        let forbidden: bool = c == '\\' || c == ',' || c == ':' || c == '*' || c == '<' || c == '>'
            || c == '?' || c == '|' || c == '"';
        if forbidden {
            push_char(&mut out, '/');
        } else {
            push_char(&mut out, c);
        }
        assert(out@ =~= sanitized(text@).take((i + 1) as int));
        i += 1;
    }
    assert(sanitized(text@).take(n as int) =~= sanitized(text@));
    out
}

/// The directory of a tile: the cache directory, the sanitized names of the
/// data and of the style, the zoom and the column, with slashes between
/// them and the two numbers as the texts given.
pub open spec fn tile_directory(
    dir: Seq<char>,
    data_path: Seq<char>,
    style_path: Seq<char>,
    z_text: Seq<char>,
    x_text: Seq<char>,
) -> Seq<char> {
    dir + "/"@ + sanitized(data_path) + "/"@ + sanitized(style_path) + "/"@ + z_text + "/"@
        + x_text
}

/// The directory and the file name under which a tile is kept: the file is
/// named by the row, the directory by everything else that tells tiles
/// apart.
pub fn get_image_path(data_path: &str, style_path: &str, x: u32, y: u32, z: u32, dir: &str) -> (r: (
    String,
    String,
))
    ensures
        exists|x_text: String, y_text: String, z_text: String|
            {
                &&& #[trigger] vstd::string::to_string_from_display_ensures::<u32>(&x, x_text)
                &&& #[trigger] vstd::string::to_string_from_display_ensures::<u32>(&y, y_text)
                &&& #[trigger] vstd::string::to_string_from_display_ensures::<u32>(&z, z_text)
                &&& r.0@ == tile_directory(dir@, data_path@, style_path@, z_text@, x_text@)
                &&& r.1@ == y_text@ + ".png"@
            },
{
    let x_text: String = x.to_string();
    let y_text: String = y.to_string();
    let z_text: String = z.to_string();
    let data = sanitize(data_path);
    let style = sanitize(style_path);
    let mut directory = String::from_str(dir);
    directory.append("/");
    directory.append(data.as_str());
    directory.append("/");
    directory.append(style.as_str());
    directory.append("/");
    directory.append(z_text.as_str());
    directory.append("/");
    directory.append(x_text.as_str());
    let mut file = y_text.clone();
    file.append(".png");
    (directory, file)
}

/// Whether a text ends with `.ron`.
pub open spec fn has_ron_suffix(s: Seq<char>) -> bool {
    s.len() >= 4 && s.subrange(s.len() - 4, s.len() as int) == ".ron"@
}

/// The name of the file of a style: the name given, with `.ron` added
/// unless it ends so.
pub open spec fn style_file_of(s: Seq<char>) -> Seq<char> {
    if has_ron_suffix(s) {
        s
    } else {
        s + ".ron"@
    }
}

/// The name of the file of a style: the name given, with `.ron` added
/// unless it ends so.
pub fn style_file_name(style_path: &str) -> (r: String)
    ensures
        r@ == style_file_of(style_path@),
{
    let n: usize = style_path.unicode_len();
    let mut r = String::from_str(style_path);
    proof {
        reveal_strlit(".ron");
    }
    let ends: bool = n >= 4 && style_path.get_char(n - 4) == '.' && style_path.get_char(n - 3)
        == 'r' && style_path.get_char(n - 2) == 'o' && style_path.get_char(n - 1) == 'n';
    if ends {
        assert(style_path@.subrange(n - 4, n as int) =~= ".ron"@);
    } else {
        if n >= 4 {
            let ghost tail = style_path@.subrange(n - 4, n as int);
            assert(tail[0] == style_path@[n - 4]);
            assert(tail[1] == style_path@[n - 3]);
            assert(tail[2] == style_path@[n - 2]);
            assert(tail[3] == style_path@[n - 1]);
        }
        r.append(".ron");
    }
    r
}

/// The text in lower case, as the standard library turns it.
pub uninterp spec fn lowercase_of(s: Seq<char>) -> Seq<char>;

/// `str::to_lowercase` of the standard library.
#[verifier::external_body]
fn to_lowercase(text: &str) -> (r: String)
    ensures
        r@ == lowercase_of(text@),
{
    text.to_lowercase()
}

/// Whether a text begins with `http`.
pub open spec fn has_http_prefix(s: Seq<char>) -> bool {
    s.len() >= 4 && s.subrange(0, 4) == "http"@
}

/// Whether a name is an address rather than a path: in lower case it
/// begins with `http`.
pub fn is_link(name: &str) -> (r: bool)
    ensures
        r == has_http_prefix(lowercase_of(name@)),
{
    let lower = to_lowercase(name);
    let text = lower.as_str();
    let n: usize = text.unicode_len();
    proof {
        reveal_strlit("http");
    }
    let begins: bool = n >= 4 && text.get_char(0) == 'h' && text.get_char(1) == 't'
        && text.get_char(2) == 't' && text.get_char(3) == 'p';
    if begins {
        assert(text@.subrange(0, 4) =~= "http"@);
    } else {
        if n >= 4 {
            let ghost head = text@.subrange(0, 4);
            assert(head[0] == text@[0]);
            assert(head[1] == text@[1]);
            assert(head[2] == text@[2]);
            assert(head[3] == text@[3]);
        }
    }
    begins
}

/// Whether a buffer of `len` bytes holds a picture of four bytes to the
/// pixel: the bytes of all its pixels can be counted and are not more than
/// the buffer has.
pub open spec fn picture_fits(width: u32, height: u32, len: nat) -> bool {
    4 * width * height <= usize::MAX && 4 * width * height <= len
}

/// The message for a buffer that is too short for the picture.
pub open spec fn render_image_message() -> Seq<char> {
    "render image error"@
}

/// Checks that a buffer holds a picture of the given size at four bytes to
/// the pixel, and fails where it is too short.
pub fn check_picture(width: u32, height: u32, buffer: &Vec<u8>) -> (r: Result<(), String>)
    ensures
        match r {
            Ok(()) => picture_fits(width, height, buffer@.len()),
            Err(message) => !picture_fits(width, height, buffer@.len()) && message@
                == render_image_message(),
        },
{
    let w: u64 = width as u64;
    let h: u64 = height as u64;
    assert(w * h <= 0xffff_ffff * 0xffff_ffff) by (nonlinear_arith)
        requires
            w <= 0xffff_ffff,
            h <= 0xffff_ffff,
    ;
    let pixels: u64 = w * h;
    assert(4 * width * height == 4 * (w * h)) by (nonlinear_arith)
        requires
            w == width,
            h == height,
    ;
    if pixels > (usize::MAX as u64) / 4 || pixels * 4 > buffer.len() as u64 {
        Err(String::from_str("render image error"))
    } else {
        Ok(())
    }
}

} // verus!
