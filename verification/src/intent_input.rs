//! The typed intent value: receiver, component, action, category, data URI,
//! MIME type, flags and extras, with its deterministic shell-command
//! serialization and its content hash.

use vstd::prelude::*;
use vstd::string::StringExecFns;
use crate::floatfmt::spec_float_text;
use crate::floatfmt::float_text;
use crate::text::dec_digits;
use crate::text::signed_dec_digits;
use crate::text::i32_val;
use crate::text::i64_val;
use crate::text::u32_of_le;
use crate::text::usize_text;
use crate::text::i32_text;
use crate::text::i64_text;
use crate::text::u32_from_le;
use crate::util::hex_escape;
use crate::util::encode_hex;

verus! {

/// The kind of component the intent is addressed to.
#[derive(Clone, Copy, PartialEq, Eq, Structural, Debug)]
pub enum ReceiverType {
    Activity,
    Service,
    BroadcastReceiver,
}

/// The scheme of a URI payload.
#[derive(Clone, Copy, PartialEq, Eq, Structural, Debug)]
pub enum URIScheme {
    Content,
    File,
    Other,
}

/// The file-type suffix of a URI payload.
#[derive(Clone, Copy, PartialEq, Eq, Structural, Debug)]
pub enum URISuffix {
    AAC,
    APK,
    GIF,
    HTML,
    JPG,
    MIDI,
    MP3,
    MP4,
    OGG,
    PDF,
    PNG,
    TXT,
    WAV,
    WMA,
    WMV,
    XML,
}

/// The MIME type of the intent's data.
#[derive(Clone, Copy, PartialEq, Eq, Structural, Debug)]
pub enum MimeType {
    ApplicationPdf,
    ApplicationVndAndroidPackageArchive,
    AudioAac,
    AudioMidi,
    AudioMpeg,
    AudioMpeg4Generic,
    AudioOgg,
    AudioWav,
    AudioXMsWma,
    ImageGif,
    ImageJpeg,
    ImagePng,
    TextHtml,
    TextPlain,
    TextXml,
    VideoMp4,
    VideoXMsVideo,
    VideoXMsWmv,
}

pub open spec fn spec_scheme_text(s: URIScheme) -> Seq<char> {
    match s {
        URIScheme::Content => ("content")@,
        URIScheme::File => ("file")@,
        URIScheme::Other => Seq::<char>::empty(),
    }
}

pub open spec fn spec_suffix_text(s: URISuffix) -> Seq<char> {
    match s {
        URISuffix::AAC => (".aac")@,
        URISuffix::APK => (".apk")@,
        URISuffix::GIF => (".gif")@,
        URISuffix::HTML => (".html")@,
        URISuffix::JPG => (".jpg")@,
        URISuffix::MIDI => (".midi")@,
        URISuffix::MP3 => (".mp3")@,
        URISuffix::MP4 => (".mp4")@,
        URISuffix::OGG => (".ogg")@,
        URISuffix::PDF => (".pdf")@,
        URISuffix::PNG => (".png")@,
        URISuffix::TXT => (".txt")@,
        URISuffix::WAV => (".wav")@,
        URISuffix::WMA => (".wma")@,
        URISuffix::WMV => (".wmv")@,
        URISuffix::XML => (".xml")@,
    }
}

pub open spec fn spec_mime_text(m: MimeType) -> Seq<char> {
    match m {
        MimeType::ApplicationPdf => ("application/pdf")@,
        MimeType::ApplicationVndAndroidPackageArchive => ("application/vnd.android.package-archive")@,
        MimeType::AudioAac => ("audio/aac")@,
        MimeType::AudioMidi => ("audio/midi")@,
        MimeType::AudioMpeg => ("audio/mpeg")@,
        MimeType::AudioMpeg4Generic => ("audio/mpeg4-generic")@,
        MimeType::AudioOgg => ("audio/ogg")@,
        MimeType::AudioWav => ("audio/wav")@,
        MimeType::AudioXMsWma => ("audio/x-ms-wma")@,
        MimeType::ImageGif => ("image/gif")@,
        MimeType::ImageJpeg => ("image/jpeg")@,
        MimeType::ImagePng => ("image/png")@,
        MimeType::TextHtml => ("text/html")@,
        MimeType::TextPlain => ("text/plain")@,
        MimeType::TextXml => ("text/xml")@,
        MimeType::VideoMp4 => ("video/mp4")@,
        MimeType::VideoXMsVideo => ("video/x-msvideo")@,
        MimeType::VideoXMsWmv => ("video/x-ms-wmv")@,
    }
}

impl URIScheme {
    /// The scheme as it appears in a URI; `Other` renders as nothing.
    pub fn text(&self) -> (r: &'static str)
        ensures
            r@ == spec_scheme_text(*self),
    {
        match self {
            URIScheme::Content => "content",
            URIScheme::File => "file",
            URIScheme::Other => {
                let r = "";
                proof {
                    reveal_strlit("");
                    assert(r@ =~= Seq::<char>::empty());
                }
                r
            },
        }
    }
}

impl URISuffix {
    /// The suffix with its leading dot.
    pub fn text(&self) -> (r: &'static str)
        ensures
            r@ == spec_suffix_text(*self),
    {
        match self {
            URISuffix::AAC => ".aac",
            URISuffix::APK => ".apk",
            URISuffix::GIF => ".gif",
            URISuffix::HTML => ".html",
            URISuffix::JPG => ".jpg",
            URISuffix::MIDI => ".midi",
            URISuffix::MP3 => ".mp3",
            URISuffix::MP4 => ".mp4",
            URISuffix::OGG => ".ogg",
            URISuffix::PDF => ".pdf",
            URISuffix::PNG => ".png",
            URISuffix::TXT => ".txt",
            URISuffix::WAV => ".wav",
            URISuffix::WMA => ".wma",
            URISuffix::WMV => ".wmv",
            URISuffix::XML => ".xml",
        }
    }
}

impl MimeType {
    /// The MIME type as its standard token.
    pub fn text(&self) -> (r: &'static str)
        ensures
            r@ == spec_mime_text(*self),
    {
        match self {
            MimeType::ApplicationPdf => "application/pdf",
            MimeType::ApplicationVndAndroidPackageArchive => "application/vnd.android.package-archive",
            MimeType::AudioAac => "audio/aac",
            MimeType::AudioMidi => "audio/midi",
            MimeType::AudioMpeg => "audio/mpeg",
            MimeType::AudioMpeg4Generic => "audio/mpeg4-generic",
            MimeType::AudioOgg => "audio/ogg",
            MimeType::AudioWav => "audio/wav",
            MimeType::AudioXMsWma => "audio/x-ms-wma",
            MimeType::ImageGif => "image/gif",
            MimeType::ImageJpeg => "image/jpeg",
            MimeType::ImagePng => "image/png",
            MimeType::TextHtml => "text/html",
            MimeType::TextPlain => "text/plain",
            MimeType::TextXml => "text/xml",
            MimeType::VideoMp4 => "video/mp4",
            MimeType::VideoXMsVideo => "video/x-msvideo",
            MimeType::VideoXMsWmv => "video/x-ms-wmv",
        }
    }
}

pub open spec fn spec_scheme_of_index(i: int) -> URIScheme {
    if i == 0 {
        URIScheme::Content
    } else if i == 1 {
        URIScheme::File
    } else {
        URIScheme::Other
    }
}

/// The scheme at a position of the three-element scheme set, by the
/// remainder of the given draw.
pub fn scheme_from_index(i: u64) -> (r: URIScheme)
    ensures
        r == spec_scheme_of_index((i % 3) as int),
{
    match i % 3 {
        0 => URIScheme::Content,
        1 => URIScheme::File,
        _ => URIScheme::Other,
    }
}

pub open spec fn spec_suffix_of_index(i: int) -> URISuffix {
    if i == 0 {
        URISuffix::AAC
    } else if i == 1 {
        URISuffix::APK
    } else if i == 2 {
        URISuffix::GIF
    } else if i == 3 {
        URISuffix::HTML
    } else if i == 4 {
        URISuffix::JPG
    } else if i == 5 {
        URISuffix::MIDI
    } else if i == 6 {
        URISuffix::MP3
    } else if i == 7 {
        URISuffix::MP4
    } else if i == 8 {
        URISuffix::OGG
    } else if i == 9 {
        URISuffix::PDF
    } else if i == 10 {
        URISuffix::PNG
    } else if i == 11 {
        URISuffix::TXT
    } else if i == 12 {
        URISuffix::WAV
    } else if i == 13 {
        URISuffix::WMA
    } else if i == 14 {
        URISuffix::WMV
    } else {
        URISuffix::XML
    }
}

/// The suffix at a position of the sixteen-element suffix set, by the
/// remainder of the given draw.
pub fn suffix_from_index(i: u64) -> (r: URISuffix)
    ensures
        r == spec_suffix_of_index((i % 16) as int),
{
    match i % 16 {
        0 => URISuffix::AAC,
        1 => URISuffix::APK,
        2 => URISuffix::GIF,
        3 => URISuffix::HTML,
        4 => URISuffix::JPG,
        5 => URISuffix::MIDI,
        6 => URISuffix::MP3,
        7 => URISuffix::MP4,
        8 => URISuffix::OGG,
        9 => URISuffix::PDF,
        10 => URISuffix::PNG,
        11 => URISuffix::TXT,
        12 => URISuffix::WAV,
        13 => URISuffix::WMA,
        14 => URISuffix::WMV,
        _ => URISuffix::XML,
    }
}

pub open spec fn spec_mime_of_index(i: int) -> MimeType {
    if i == 0 {
        MimeType::ApplicationPdf
    } else if i == 1 {
        MimeType::ApplicationVndAndroidPackageArchive
    } else if i == 2 {
        MimeType::AudioAac
    } else if i == 3 {
        MimeType::AudioMidi
    } else if i == 4 {
        MimeType::AudioMpeg
    } else if i == 5 {
        MimeType::AudioMpeg4Generic
    } else if i == 6 {
        MimeType::AudioOgg
    } else if i == 7 {
        MimeType::AudioWav
    } else if i == 8 {
        MimeType::AudioXMsWma
    } else if i == 9 {
        MimeType::ImageGif
    } else if i == 10 {
        MimeType::ImageJpeg
    } else if i == 11 {
        MimeType::ImagePng
    } else if i == 12 {
        MimeType::TextHtml
    } else if i == 13 {
        MimeType::TextPlain
    } else if i == 14 {
        MimeType::TextXml
    } else if i == 15 {
        MimeType::VideoMp4
    } else if i == 16 {
        MimeType::VideoXMsVideo
    } else {
        MimeType::VideoXMsWmv
    }
}

/// The MIME type at a position of the eighteen-element set, by the remainder
/// of the given draw.
pub fn mime_from_index(i: u64) -> (r: MimeType)
    ensures
        r == spec_mime_of_index((i % 18) as int),
{
    match i % 18 {
        0 => MimeType::ApplicationPdf,
        1 => MimeType::ApplicationVndAndroidPackageArchive,
        2 => MimeType::AudioAac,
        3 => MimeType::AudioMidi,
        4 => MimeType::AudioMpeg,
        5 => MimeType::AudioMpeg4Generic,
        6 => MimeType::AudioOgg,
        7 => MimeType::AudioWav,
        8 => MimeType::AudioXMsWma,
        9 => MimeType::ImageGif,
        10 => MimeType::ImageJpeg,
        11 => MimeType::ImagePng,
        12 => MimeType::TextHtml,
        13 => MimeType::TextPlain,
        14 => MimeType::TextXml,
        15 => MimeType::VideoMp4,
        16 => MimeType::VideoXMsVideo,
        _ => MimeType::VideoXMsWmv,
    }
}

/// An auxiliary payload surfaced to the intent as a URI.
#[derive(Clone, Debug)]
pub struct URIInput {
    /// How the payload reaches the device: through the content provider,
    /// through a file, or inlined in the URI itself.
    pub scheme: URIScheme,
    /// The file-type suffix of the provisioned name.
    pub suffix: URISuffix,
    /// The backing payload bytes.
    pub content: Vec<u8>,
}

/// The byte buffer behind every non-URI extra value.
#[derive(Clone, Debug)]
pub struct DirectInput {
    pub buffer: Vec<u8>,
}

/// The URI identifier text for the payload provisioned at `slot`.
pub open spec fn spec_identifier(u: URIInput, slot: nat) -> Seq<char> {
    match u.scheme {
        URIScheme::Other => hex_escape(u.content@),
        URIScheme::Content => (
        "content://org.gts3.jnifuzz.contentprovider.provider/external_files/extra_input_")@
            + dec_digits(slot) + spec_suffix_text(u.suffix),
        URIScheme::File => ("file:///data/local/tmp/extra_input_")@ + dec_digits(slot)
            + spec_suffix_text(u.suffix),
    }
}

impl URIInput {
    /// The URI under which the payload is visible on the device when it is
    /// provisioned at slot `id`: a content-provider path, a file path, or
    /// the hex escape of the content itself.
    pub fn identifier(&self, id: usize) -> (r: String)
        ensures
            r@ == spec_identifier(*self, id as nat),
    {
        match self.scheme {
            URIScheme::Other => encode_hex(self.content.as_slice()),
            URIScheme::Content => {
                let mut r = String::from_str(
                    "content://org.gts3.jnifuzz.contentprovider.provider/external_files/extra_input_",
                );
                r.append(usize_text(id).as_str());
                r.append(self.suffix.text());
                r
            },
            URIScheme::File => {
                let mut r = String::from_str("file:///data/local/tmp/extra_input_");
                r.append(usize_text(id).as_str());
                r.append(self.suffix.text());
                r
            },
        }
    }
}



/// A typed extra value: the variant selects the on-device type, the payload
/// is a byte buffer (or a URI payload for the `URI` variant).
#[derive(Clone, Debug)]
pub enum ExtraType {
    String(DirectInput),
    Boolean(DirectInput),
    Int(DirectInput),
    Long(DirectInput),
    Float(DirectInput),
    URI(URIInput),
    ComponentName(DirectInput),
    IntArray(DirectInput),
    IntArrayList(DirectInput),
    LongArray(DirectInput),
    LongArrayList(DirectInput),
    FloatArray(DirectInput),
    FloatArrayList(DirectInput),
    StringArray(DirectInput),
    StringArrayList(DirectInput),
}

/// One keyed extra of an intent.
#[derive(Clone, Debug)]
pub struct ExtraInput {
    pub key: String,
    pub value: ExtraType,
}

/// The root value passed through the fuzzing loop.
#[derive(Clone, Debug)]
pub struct IntentInput {
    /// The kind of the receiving component; the driver dispatches only
    /// activities and broadcast receivers.
    pub receiver_type: ReceiverType,
    /// The package of the receiving component.
    pub component_package: String,
    /// The class of the receiving component.
    pub component_class: String,
    /// The action of the intent.
    pub action: String,
    /// The category of the intent.
    pub category: String,
    /// The optional data URI payload.
    pub data: Option<URIInput>,
    /// The MIME type of the data.
    pub mime_type: MimeType,
    /// The intent flag bits.
    pub flags: u32,
    /// The keyed extras, at most ten after mutation.
    pub extras: Vec<ExtraInput>,
}

/// The short type code that follows `--e` on the command line.
pub open spec fn spec_tag_code(v: ExtraType) -> Seq<char> {
    match v {
        ExtraType::String(_) => ("s")@,
        ExtraType::Boolean(_) => ("z")@,
        ExtraType::Int(_) => ("i")@,
        ExtraType::Long(_) => ("l")@,
        ExtraType::Float(_) => ("f")@,
        ExtraType::URI(_) => ("u")@,
        ExtraType::ComponentName(_) => ("cn")@,
        ExtraType::IntArray(_) => ("ia")@,
        ExtraType::IntArrayList(_) => ("ial")@,
        ExtraType::LongArray(_) => ("la")@,
        ExtraType::LongArrayList(_) => ("lal")@,
        ExtraType::FloatArray(_) => ("fa")@,
        ExtraType::FloatArrayList(_) => ("fal")@,
        ExtraType::StringArray(_) => ("sa")@,
        ExtraType::StringArrayList(_) => ("sal")@,
    }
}

impl ExtraType {
    pub fn tag_code(&self) -> (r: &'static str)
        ensures
            r@ == spec_tag_code(*self),
    {
        match self {
            ExtraType::String(_) => "s",
            ExtraType::Boolean(_) => "z",
            ExtraType::Int(_) => "i",
            ExtraType::Long(_) => "l",
            ExtraType::Float(_) => "f",
            ExtraType::URI(_) => "u",
            ExtraType::ComponentName(_) => "cn",
            ExtraType::IntArray(_) => "ia",
            ExtraType::IntArrayList(_) => "ial",
            ExtraType::LongArray(_) => "la",
            ExtraType::LongArrayList(_) => "lal",
            ExtraType::FloatArray(_) => "fa",
            ExtraType::FloatArrayList(_) => "fal",
            ExtraType::StringArray(_) => "sa",
            ExtraType::StringArrayList(_) => "sal",
        }
    }
}

/// The byte at `i`, or zero past the end: short trailing chunks of an array
/// extra are zero-padded.
pub open spec fn byte_at(b: Seq<u8>, i: int) -> u8 {
    if 0 <= i < b.len() {
        b[i]
    } else {
        0
    }
}

pub open spec fn chunk_u32(b: Seq<u8>, t: int) -> u32 {
    u32_of_le(byte_at(b, 4 * t), byte_at(b, 4 * t + 1), byte_at(b, 4 * t + 2), byte_at(b, 4 * t + 3))
}

pub open spec fn chunk_u64(b: Seq<u8>, t: int) -> u64 {
    crate::text::u64_of_le(
        byte_at(b, 8 * t),
        byte_at(b, 8 * t + 1),
        byte_at(b, 8 * t + 2),
        byte_at(b, 8 * t + 3),
        byte_at(b, 8 * t + 4),
        byte_at(b, 8 * t + 5),
        byte_at(b, 8 * t + 6),
        byte_at(b, 8 * t + 7),
    )
}

/// The first `count` four-byte chunks as signed decimals, comma-joined.
pub open spec fn int_array_text(b: Seq<u8>, count: int) -> Seq<char>
    decreases count,
{
    if count <= 0 {
        Seq::<char>::empty()
    } else if count == 1 {
        signed_dec_digits(i32_val(chunk_u32(b, 0)))
    } else {
        int_array_text(b, count - 1) + (",")@ + signed_dec_digits(i32_val(chunk_u32(b, count - 1)))
    }
}

/// The first `count` eight-byte chunks as signed decimals, comma-joined.
pub open spec fn long_array_text(b: Seq<u8>, count: int) -> Seq<char>
    decreases count,
{
    if count <= 0 {
        Seq::<char>::empty()
    } else if count == 1 {
        signed_dec_digits(i64_val(chunk_u64(b, 0)))
    } else {
        long_array_text(b, count - 1) + (",")@ + signed_dec_digits(i64_val(chunk_u64(b, count - 1)))
    }
}

pub open spec fn chunk_float_text(b: Seq<u8>, t: int) -> Seq<char> {
    spec_float_text(byte_at(b, 4 * t), byte_at(b, 4 * t + 1), byte_at(b, 4 * t + 2), byte_at(b, 4 * t + 3))
}

/// The first `count` four-byte chunks as binary32 texts, comma-joined.
pub open spec fn float_array_text(b: Seq<u8>, count: int) -> Seq<char>
    decreases count,
{
    if count <= 0 {
        Seq::<char>::empty()
    } else if count == 1 {
        chunk_float_text(b, 0)
    } else {
        float_array_text(b, count - 1) + (",")@ + chunk_float_text(b, count - 1)
    }
}

/// Zero bytes replaced with the comma byte, the string-array separator.
pub open spec fn subst_commas(b: Seq<u8>) -> Seq<u8> {
    b.map_values(|x: u8| if x == 0 { 44u8 } else { x })
}

pub open spec fn chunk_count4(len: int) -> int {
    (len + 3) / 4
}

pub open spec fn chunk_count8(len: int) -> int {
    (len + 7) / 8
}

/// The serialized value text of an extra, `None` when the extra is omitted
/// from the command: a fixed-width numeric extra with the wrong buffer size,
/// or an array extra with an empty buffer.
pub open spec fn spec_arg_value(v: ExtraType, slot: nat) -> Option<Seq<char>> {
    match v {
        ExtraType::URI(u) => Option::Some(spec_identifier(u, slot)),
        ExtraType::String(d) => Option::Some(hex_escape(d.buffer@)),
        ExtraType::Boolean(d) => Option::Some(
            if d.buffer@.len() > 0 && d.buffer@[0] == 0 {
                ("false")@
            } else {
                ("true")@
            },
        ),
        ExtraType::Int(d) => if d.buffer@.len() == 4 {
            Option::Some(
                signed_dec_digits(
                    i32_val(u32_of_le(d.buffer@[0], d.buffer@[1], d.buffer@[2], d.buffer@[3])),
                ),
            )
        } else {
            Option::None
        },
        ExtraType::Long(d) => if d.buffer@.len() == 8 {
            Option::Some(
                signed_dec_digits(
                    i64_val(
                        crate::text::u64_of_le(
                            d.buffer@[0],
                            d.buffer@[1],
                            d.buffer@[2],
                            d.buffer@[3],
                            d.buffer@[4],
                            d.buffer@[5],
                            d.buffer@[6],
                            d.buffer@[7],
                        ),
                    ),
                ),
            )
        } else {
            Option::None
        },
        ExtraType::Float(d) => if d.buffer@.len() == 4 {
            Option::Some(spec_float_text(d.buffer@[0], d.buffer@[1], d.buffer@[2], d.buffer@[3]))
        } else {
            Option::None
        },
        ExtraType::ComponentName(d) => Option::Some(hex_escape(d.buffer@)),
        ExtraType::IntArray(d) | ExtraType::IntArrayList(d) => if d.buffer@.len() == 0 {
            Option::None
        } else {
            Option::Some(int_array_text(d.buffer@, chunk_count4(d.buffer@.len() as int)))
        },
        ExtraType::LongArray(d) | ExtraType::LongArrayList(d) => if d.buffer@.len() == 0 {
            Option::None
        } else {
            Option::Some(long_array_text(d.buffer@, chunk_count8(d.buffer@.len() as int)))
        },
        ExtraType::FloatArray(d) | ExtraType::FloatArrayList(d) => if d.buffer@.len() == 0 {
            Option::None
        } else {
            Option::Some(float_array_text(d.buffer@, chunk_count4(d.buffer@.len() as int)))
        },
        ExtraType::StringArray(d) | ExtraType::StringArrayList(d) => if d.buffer@.len() == 0 {
            Option::None
        } else {
            Option::Some(hex_escape(subst_commas(d.buffer@)))
        },
    }
}

/// The whole command-line fragment of the extra at 1-based `slot`, or `None`
/// when the extra is omitted.
pub open spec fn spec_command_args(e: ExtraInput, slot: nat) -> Option<Seq<char>> {
    match spec_arg_value(e.value, slot) {
        Option::None => Option::None,
        Option::Some(v) => Option::Some(
            (" --e")@ + spec_tag_code(e.value) + (" '")@ + e.key@ + ("' $'")@ + v + ("'")@,
        ),
    }
}

/// The view of an optional string.
pub open spec fn option_text(o: Option<String>) -> Option<Seq<char>> {
    match o {
        Option::None => Option::None,
        Option::Some(s) => Option::Some(s@),
    }
}

fn int_array_string(b: &Vec<u8>) -> (r: String)
    requires
        b@.len() > 0,
    ensures
        r@ == int_array_text(b@, chunk_count4(b@.len() as int)),
{
    let len = b.len();
    let mut out = String::new();
    let mut idx: usize = 0;
    let ghost mut t: int = 0;
    while idx < len
        invariant
            len == b@.len(),
            idx <= len,
            0 <= t,
            idx < len ==> idx == 4 * t,
            idx == len ==> t == chunk_count4(len as int),
            out@ == int_array_text(b@, t),
        decreases len - idx,
    {
        let rem = len - idx;
        let b0 = b[idx];
        let b1 = if rem > 1 { b[idx + 1] } else { 0 };
        let b2 = if rem > 2 { b[idx + 2] } else { 0 };
        let b3 = if rem > 3 { b[idx + 3] } else { 0 };
        if idx > 0 {
            out.append(",");
        }
        out.append(i32_text(u32_from_le(b0, b1, b2, b3)).as_str());
        proof {
            assert(b0 == byte_at(b@, 4 * t) && b1 == byte_at(b@, 4 * t + 1) && b2 == byte_at(
                b@,
                4 * t + 2,
            ) && b3 == byte_at(b@, 4 * t + 3));
            assert(out@ =~= int_array_text(b@, t + 1));
            t = t + 1;
        }
        if rem > 4 {
            idx = idx + 4;
        } else {
            idx = len;
        }
    }
    out
}

fn long_array_string(b: &Vec<u8>) -> (r: String)
    requires
        b@.len() > 0,
    ensures
        r@ == long_array_text(b@, chunk_count8(b@.len() as int)),
{
    let len = b.len();
    let mut out = String::new();
    let mut idx: usize = 0;
    let ghost mut t: int = 0;
    while idx < len
        invariant
            len == b@.len(),
            idx <= len,
            0 <= t,
            idx < len ==> idx == 8 * t,
            idx == len ==> t == chunk_count8(len as int),
            out@ == long_array_text(b@, t),
        decreases len - idx,
    {
        let rem = len - idx;
        let b0 = b[idx];
        let b1 = if rem > 1 { b[idx + 1] } else { 0 };
        let b2 = if rem > 2 { b[idx + 2] } else { 0 };
        let b3 = if rem > 3 { b[idx + 3] } else { 0 };
        let b4 = if rem > 4 { b[idx + 4] } else { 0 };
        let b5 = if rem > 5 { b[idx + 5] } else { 0 };
        let b6 = if rem > 6 { b[idx + 6] } else { 0 };
        let b7 = if rem > 7 { b[idx + 7] } else { 0 };
        if idx > 0 {
            out.append(",");
        }
        out.append(i64_text(crate::text::u64_from_le(b0, b1, b2, b3, b4, b5, b6, b7)).as_str());
        proof {
            assert(b0 == byte_at(b@, 8 * t) && b1 == byte_at(b@, 8 * t + 1) && b2 == byte_at(
                b@,
                8 * t + 2,
            ) && b3 == byte_at(b@, 8 * t + 3) && b4 == byte_at(b@, 8 * t + 4) && b5 == byte_at(
                b@,
                8 * t + 5,
            ) && b6 == byte_at(b@, 8 * t + 6) && b7 == byte_at(b@, 8 * t + 7));
            assert(out@ =~= long_array_text(b@, t + 1));
            t = t + 1;
        }
        if rem > 8 {
            idx = idx + 8;
        } else {
            idx = len;
        }
    }
    out
}

fn float_array_string(b: &Vec<u8>) -> (r: String)
    requires
        b@.len() > 0,
    ensures
        r@ == float_array_text(b@, chunk_count4(b@.len() as int)),
{
    let len = b.len();
    let mut out = String::new();
    let mut idx: usize = 0;
    let ghost mut t: int = 0;
    while idx < len
        invariant
            len == b@.len(),
            idx <= len,
            0 <= t,
            idx < len ==> idx == 4 * t,
            idx == len ==> t == chunk_count4(len as int),
            out@ == float_array_text(b@, t),
        decreases len - idx,
    {
        let rem = len - idx;
        let b0 = b[idx];
        let b1 = if rem > 1 { b[idx + 1] } else { 0 };
        let b2 = if rem > 2 { b[idx + 2] } else { 0 };
        let b3 = if rem > 3 { b[idx + 3] } else { 0 };
        if idx > 0 {
            out.append(",");
        }
        out.append(float_text(b0, b1, b2, b3).as_str());
        proof {
            assert(b0 == byte_at(b@, 4 * t) && b1 == byte_at(b@, 4 * t + 1) && b2 == byte_at(
                b@,
                4 * t + 2,
            ) && b3 == byte_at(b@, 4 * t + 3));
            assert(out@ =~= float_array_text(b@, t + 1));
            t = t + 1;
        }
        if rem > 4 {
            idx = idx + 4;
        } else {
            idx = len;
        }
    }
    out
}

fn subst_commas_bytes(b: &Vec<u8>) -> (r: Vec<u8>)
    ensures
        r@ == subst_commas(b@),
{
    let mut out: Vec<u8> = Vec::new();
    let mut i: usize = 0;
    proof {
        assert(out@ =~= subst_commas(b@.take(0)));
    }
    while i < b.len()
        invariant
            i <= b@.len(),
            out@ == subst_commas(b@.take(i as int)),
        decreases b@.len() - i,
    {
        let x = b[i];
        if x == 0 {
            out.push(44u8);
        } else {
            out.push(x);
        }
        proof {
            assert(out@ =~= subst_commas(b@.take(i + 1)));
        }
        i += 1;
    }
    proof {
        assert(b@.take(b@.len() as int) =~= b@);
    }
    out
}

impl ExtraInput {
    /// The command-line fragment for this extra at 1-based position `index`,
    /// or `None` when the extra is omitted from the command.
    pub fn command_args(&self, index: usize) -> (r: Option<String>)
        ensures
            option_text(r) == spec_command_args(*self, index as nat),
    {
        let arg_string: Option<String> = match &self.value {
            ExtraType::URI(uri_input) => Some(uri_input.identifier(index)),
            ExtraType::String(d_input) => Some(encode_hex(d_input.buffer.as_slice())),
            ExtraType::Boolean(d_input) => {
                if d_input.buffer.len() > 0 && d_input.buffer[0] == 0 {
                    Some(String::from_str("false"))
                } else {
                    Some(String::from_str("true"))
                }
            },
            ExtraType::Int(d_input) => {
                if d_input.buffer.len() == 4 {
                    let b = &d_input.buffer;
                    Some(i32_text(u32_from_le(b[0], b[1], b[2], b[3])))
                } else {
                    None
                }
            },
            ExtraType::Long(d_input) => {
                if d_input.buffer.len() == 8 {
                    let b = &d_input.buffer;
                    Some(
                        i64_text(
                            crate::text::u64_from_le(
                                b[0],
                                b[1],
                                b[2],
                                b[3],
                                b[4],
                                b[5],
                                b[6],
                                b[7],
                            ),
                        ),
                    )
                } else {
                    None
                }
            },
            ExtraType::Float(d_input) => {
                if d_input.buffer.len() == 4 {
                    let b = &d_input.buffer;
                    Some(float_text(b[0], b[1], b[2], b[3]))
                } else {
                    None
                }
            },
            ExtraType::ComponentName(d_input) => Some(encode_hex(d_input.buffer.as_slice())),
            ExtraType::IntArray(d_input) | ExtraType::IntArrayList(d_input) => {
                if d_input.buffer.len() == 0 {
                    None
                } else {
                    Some(int_array_string(&d_input.buffer))
                }
            },
            ExtraType::LongArray(d_input) | ExtraType::LongArrayList(d_input) => {
                if d_input.buffer.len() == 0 {
                    None
                } else {
                    Some(long_array_string(&d_input.buffer))
                }
            },
            ExtraType::FloatArray(d_input) | ExtraType::FloatArrayList(d_input) => {
                if d_input.buffer.len() == 0 {
                    None
                } else {
                    Some(float_array_string(&d_input.buffer))
                }
            },
            ExtraType::StringArray(d_input) | ExtraType::StringArrayList(d_input) => {
                if d_input.buffer.len() == 0 {
                    None
                } else {
                    Some(encode_hex(subst_commas_bytes(&d_input.buffer).as_slice()))
                }
            },
        };
        match arg_string {
            None => None,
            Some(v) => {
                let mut out = String::from_str(" --e");
                out.append(self.value.tag_code());
                out.append(" '");
                out.append(self.key.as_str());
                out.append("' $'");
                out.append(v.as_str());
                out.append("'");
                proof {
                    assert(out@ =~= (" --e")@ + spec_tag_code(self.value) + (" '")@ + self.key@ + (
                    "' $'")@ + v@ + ("'")@);
                }
                Some(out)
            },
        }
    }
}



/// The views of a vector of strings.
pub open spec fn views_of(ss: Seq<String>) -> Seq<Seq<char>> {
    ss.map_values(|s: String| s@)
}

/// The extras fragments in order, with 1-based slots, omitted extras dropped.
pub open spec fn spec_parts(extras: Seq<ExtraInput>) -> Seq<Seq<char>>
    decreases extras.len(),
{
    if extras.len() == 0 {
        Seq::<Seq<char>>::empty()
    } else {
        spec_parts(extras.drop_last()) + (match spec_command_args(
            extras.last(),
            extras.len() as nat,
        ) {
            Option::Some(v) => seq![v],
            Option::None => Seq::<Seq<char>>::empty(),
        })
    }
}

/// The fragments joined with single spaces.
pub open spec fn join_space(parts: Seq<Seq<char>>) -> Seq<char>
    decreases parts.len(),
{
    if parts.len() == 0 {
        Seq::<char>::empty()
    } else if parts.len() == 1 {
        parts[0]
    } else {
        join_space(parts.drop_last()) + (" ")@ + parts.last()
    }
}

/// The activity-manager verb for the receiver kind.
pub open spec fn spec_verb(rt: ReceiverType) -> Seq<char> {
    match rt {
        ReceiverType::Activity => ("start")@,
        ReceiverType::BroadcastReceiver => ("broadcast")@,
        ReceiverType::Service => Seq::<char>::empty(),
    }
}

/// The component in `package/class` form.
pub open spec fn spec_component(i: IntentInput) -> Seq<char> {
    i.component_package@ + ("/")@ + i.component_class@
}

/// The whole command line sent through the device control channel.
pub open spec fn spec_shell_command(i: IntentInput) -> Seq<char> {
    ("am ")@ + spec_verb(i.receiver_type) + (" -n '")@ + spec_component(i) + ("' -a '")@ + i.action@
        + ("' -t '")@ + spec_mime_text(i.mime_type) + ("' --grant-read-uri-permission ")@ + (match i.data {
        Option::Some(d) => (" -d '")@ + spec_identifier(d, 0) + ("'")@,
        Option::None => Seq::<char>::empty(),
    }) + (if i.category@.len() > 0 {
        (" -c ")@ + i.category@
    } else {
        Seq::<char>::empty()
    }) + (" ")@ + join_space(spec_parts(i.extras@))
}

impl IntentInput {
    /// The component that receives the intent, in `package/class` form.
    pub fn component(&self) -> (r: String)
        ensures
            r@ == spec_component(*self),
    {
        let mut r = self.component_package.clone();
        r.append("/");
        r.append(self.component_class.as_str());
        r
    }

    /// The command that delivers this intent through the device shell.
    /// Only activities and broadcast receivers can be dispatched.
    pub fn shell_command(&self) -> (r: String)
        requires
            self.receiver_type != ReceiverType::Service,
        ensures
            r@ == spec_shell_command(*self),
    {
        let mut command = String::from_str("am ");
        match self.receiver_type {
            ReceiverType::Activity => command.append("start"),
            _ => command.append("broadcast"),
        }
        command.append(" -n '");
        command.append(self.component().as_str());
        command.append("' -a '");
        command.append(self.action.as_str());
        command.append("' -t '");
        command.append(self.mime_type.text());
        command.append("' --grant-read-uri-permission ");
        match &self.data {
            Some(d) => {
                command.append(" -d '");
                command.append(d.identifier(0).as_str());
                command.append("'");
            },
            None => {},
        }
        if !self.category.as_str().is_empty() {
            command.append(" -c ");
            command.append(self.category.as_str());
        }
        command.append(" ");
        let ghost head = command@;
        let mut parts: Vec<String> = Vec::new();
        let mut i: usize = 0;
        proof {
            assert(self.extras@.take(0) =~= Seq::<ExtraInput>::empty());
            assert(views_of(parts@) =~= spec_parts(self.extras@.take(0)));
        }
        while i < self.extras.len()
            invariant
                i <= self.extras@.len(),
                views_of(parts@) == spec_parts(self.extras@.take(i as int)),
            decreases self.extras@.len() - i,
        {
            let e: &ExtraInput = &self.extras[i];
            let ghost old_parts = parts@;
            match e.command_args(i + 1) {
                Some(s) => {
                    parts.push(s);
                    proof {
                        assert(views_of(parts@) =~= views_of(old_parts).push(s@));
                    }
                },
                None => {},
            }
            proof {
                assert(self.extras@.take(i + 1).drop_last() =~= self.extras@.take(i as int));
                assert(self.extras@.take(i + 1).last() == self.extras@[i as int]);
                assert(views_of(parts@) =~= spec_parts(self.extras@.take(i + 1)));
            }
            i += 1;
        }
        proof {
            assert(self.extras@.take(self.extras@.len() as int) =~= self.extras@);
        }
        let mut extras_command = String::new();
        let mut j: usize = 0;
        proof {
            assert(views_of(parts@).take(0) =~= Seq::<Seq<char>>::empty());
        }
        while j < parts.len()
            invariant
                j <= parts@.len(),
                views_of(parts@) == spec_parts(self.extras@),
                extras_command@ == join_space(views_of(parts@).take(j as int)),
            decreases parts@.len() - j,
        {
            if j > 0 {
                extras_command.append(" ");
            }
            let p: &String = &parts[j];
            extras_command.append(p.as_str());
            proof {
                assert(views_of(parts@).take(j + 1).drop_last() =~= views_of(parts@).take(
                    j as int,
                ));
                assert(views_of(parts@).take(j + 1).last() == p@);
                assert(extras_command@ =~= join_space(views_of(parts@).take(j + 1)));
            }
            j += 1;
        }
        proof {
            assert(views_of(parts@).take(parts@.len() as int) =~= views_of(parts@));
        }
        command.append(extras_command.as_str());
        proof {
            assert(command@ =~= spec_shell_command(*self));
        }
        command
    }
}



/// The UTF-8 bytes of a character sequence.
pub open spec fn utf8_bytes(s: Seq<char>) -> Seq<u8> {
    vstd::utf8::encode_utf8(s)
}

pub open spec fn u32_le_bytes(n: u32) -> Seq<u8> {
    seq![
        (n % 0x100) as u8,
        ((n / 0x100) % 0x100) as u8,
        ((n / 0x10000) % 0x100) as u8,
        ((n / 0x1000000) % 0x100) as u8,
    ]
}

pub open spec fn u64_le_bytes(n: u64) -> Seq<u8> {
    seq![
        (n % 0x100) as u8,
        ((n / 0x100) % 0x100) as u8,
        ((n / 0x10000) % 0x100) as u8,
        ((n / 0x1000000) % 0x100) as u8,
        ((n / 0x1_0000_0000) % 0x100) as u8,
        ((n / 0x100_0000_0000) % 0x100) as u8,
        ((n / 0x1_0000_0000_0000) % 0x100) as u8,
        ((n / 0x100_0000_0000_0000) % 0x100) as u8,
    ]
}

pub open spec fn scheme_tag(s: URIScheme) -> u8 {
    match s {
        URIScheme::Content => 0,
        URIScheme::File => 1,
        URIScheme::Other => 2,
    }
}

pub open spec fn suffix_tag(s: URISuffix) -> u8 {
    match s {
        URISuffix::AAC => 0,
        URISuffix::APK => 1,
        URISuffix::GIF => 2,
        URISuffix::HTML => 3,
        URISuffix::JPG => 4,
        URISuffix::MIDI => 5,
        URISuffix::MP3 => 6,
        URISuffix::MP4 => 7,
        URISuffix::OGG => 8,
        URISuffix::PDF => 9,
        URISuffix::PNG => 10,
        URISuffix::TXT => 11,
        URISuffix::WAV => 12,
        URISuffix::WMA => 13,
        URISuffix::WMV => 14,
        URISuffix::XML => 15,
    }
}

pub open spec fn variant_tag(v: ExtraType) -> u8 {
    match v {
        ExtraType::String(_) => 0,
        ExtraType::Boolean(_) => 1,
        ExtraType::Int(_) => 2,
        ExtraType::Long(_) => 3,
        ExtraType::Float(_) => 4,
        ExtraType::URI(_) => 5,
        ExtraType::ComponentName(_) => 6,
        ExtraType::IntArray(_) => 7,
        ExtraType::IntArrayList(_) => 8,
        ExtraType::LongArray(_) => 9,
        ExtraType::LongArrayList(_) => 10,
        ExtraType::FloatArray(_) => 11,
        ExtraType::FloatArrayList(_) => 12,
        ExtraType::StringArray(_) => 13,
        ExtraType::StringArrayList(_) => 14,
    }
}

/// The canonical encoding of a URI payload: scheme and suffix tags, then the
/// length-prefixed content bytes.
pub open spec fn canonical_uri(u: URIInput) -> Seq<u8> {
    seq![scheme_tag(u.scheme), suffix_tag(u.suffix)] + u64_le_bytes(u.content@.len() as u64)
        + u.content@
}

/// The canonical encoding of the optional data payload.
pub open spec fn canonical_data(d: Option<URIInput>) -> Seq<u8> {
    match d {
        Option::None => seq![0u8],
        Option::Some(u) => seq![1u8] + canonical_uri(u),
    }
}

/// The canonical encoding of a typed extra value: the variant tag, then the
/// length-prefixed buffer (or the URI encoding).
pub open spec fn canonical_value(v: ExtraType) -> Seq<u8> {
    seq![variant_tag(v)] + (match v {
        ExtraType::URI(u) => canonical_uri(u),
        ExtraType::String(d) => u64_le_bytes(d.buffer@.len() as u64) + d.buffer@,
        ExtraType::Boolean(d) => u64_le_bytes(d.buffer@.len() as u64) + d.buffer@,
        ExtraType::Int(d) => u64_le_bytes(d.buffer@.len() as u64) + d.buffer@,
        ExtraType::Long(d) => u64_le_bytes(d.buffer@.len() as u64) + d.buffer@,
        ExtraType::Float(d) => u64_le_bytes(d.buffer@.len() as u64) + d.buffer@,
        ExtraType::ComponentName(d) => u64_le_bytes(d.buffer@.len() as u64) + d.buffer@,
        ExtraType::IntArray(d) => u64_le_bytes(d.buffer@.len() as u64) + d.buffer@,
        ExtraType::IntArrayList(d) => u64_le_bytes(d.buffer@.len() as u64) + d.buffer@,
        ExtraType::LongArray(d) => u64_le_bytes(d.buffer@.len() as u64) + d.buffer@,
        ExtraType::LongArrayList(d) => u64_le_bytes(d.buffer@.len() as u64) + d.buffer@,
        ExtraType::FloatArray(d) => u64_le_bytes(d.buffer@.len() as u64) + d.buffer@,
        ExtraType::FloatArrayList(d) => u64_le_bytes(d.buffer@.len() as u64) + d.buffer@,
        ExtraType::StringArray(d) => u64_le_bytes(d.buffer@.len() as u64) + d.buffer@,
        ExtraType::StringArrayList(d) => u64_le_bytes(d.buffer@.len() as u64) + d.buffer@,
    })
}

/// The canonical encoding of the extras, keys and values in order.
pub open spec fn canonical_extras(es: Seq<ExtraInput>) -> Seq<u8>
    decreases es.len(),
{
    if es.len() == 0 {
        Seq::<u8>::empty()
    } else {
        canonical_extras(es.drop_last()) + utf8_bytes(es.last().key@) + canonical_value(
            es.last().value,
        )
    }
}

/// The canonical byte stream that the hash fingerprints: every serializable
/// field of the intent, in a fixed order.
pub open spec fn canonical_stream(i: IntentInput) -> Seq<u8> {
    utf8_bytes(spec_component(i)) + utf8_bytes(i.action@) + utf8_bytes(i.category@) + canonical_data(
        i.data,
    ) + utf8_bytes(spec_mime_text(i.mime_type)) + u32_le_bytes(i.flags) + canonical_extras(
        i.extras@,
    )
}

/// The 32 lowercase hex digits of the 128-bit FarmHash fingerprint of a byte
/// buffer.
pub uninterp spec fn farm_fingerprint_hex_of(bytes: Seq<u8>) -> Seq<char>;

/// A lowercase hex digit, the only characters `{:x}` formatting emits.
pub open spec fn is_lower_hex_char(c: char) -> bool {
    ('0' <= c && c <= '9') || ('a' <= c && c <= 'f')
}

/// Relies on fasthash::farm::fingerprint128: the forever-fixed 128-bit
/// FarmHash fingerprint of a byte buffer, a function of the bytes alone on
/// every platform and in every build. The `{:032x}` rendering of a 128-bit
/// value is always exactly 32 lowercase hex digits.
#[verifier::external_body]
fn farm_fingerprint_hex(bytes: &Vec<u8>) -> (r: String)
    ensures
        r@ == farm_fingerprint_hex_of(bytes@),
        r@.len() == 32,
        forall|k: int| 0 <= k < r@.len() ==> is_lower_hex_char(#[trigger] r@[k]),
{
    format!("{:032x}", fasthash::farm::fingerprint128(bytes.as_slice()))
}

fn push_slice(out: &mut Vec<u8>, b: &[u8])
    ensures
        final(out)@ == old(out)@ + b@,
{
    let ghost base = out@;
    let mut i: usize = 0;
    proof {
        assert(out@ =~= base + b@.take(0));
    }
    while i < b.len()
        invariant
            i <= b@.len(),
            out@ == base + b@.take(i as int),
        decreases b@.len() - i,
    {
        out.push(b[i]);
        proof {
            assert(out@ =~= base + b@.take(i + 1));
        }
        i += 1;
    }
    proof {
        assert(b@.take(b@.len() as int) =~= b@);
    }
}

fn push_str_bytes(out: &mut Vec<u8>, s: &str)
    ensures
        final(out)@ == old(out)@ + utf8_bytes(s@),
{
    push_slice(out, s.as_bytes());
}

fn push_u64_le(out: &mut Vec<u8>, n: u64)
    ensures
        final(out)@ == old(out)@ + u64_le_bytes(n),
{
    let ghost base = out@;
    out.push((n % 0x100) as u8);
    out.push(((n / 0x100) % 0x100) as u8);
    out.push(((n / 0x10000) % 0x100) as u8);
    out.push(((n / 0x1000000) % 0x100) as u8);
    out.push(((n / 0x1_0000_0000) % 0x100) as u8);
    out.push(((n / 0x100_0000_0000) % 0x100) as u8);
    out.push(((n / 0x1_0000_0000_0000) % 0x100) as u8);
    out.push(((n / 0x100_0000_0000_0000) % 0x100) as u8);
    proof {
        assert(out@ =~= base + u64_le_bytes(n));
    }
}

fn push_u32_le(out: &mut Vec<u8>, n: u32)
    ensures
        final(out)@ == old(out)@ + u32_le_bytes(n),
{
    let ghost base = out@;
    out.push((n % 0x100) as u8);
    out.push(((n / 0x100) % 0x100) as u8);
    out.push(((n / 0x10000) % 0x100) as u8);
    out.push(((n / 0x1000000) % 0x100) as u8);
    proof {
        assert(out@ =~= base + u32_le_bytes(n));
    }
}

fn push_uri(out: &mut Vec<u8>, u: &URIInput)
    ensures
        final(out)@ == old(out)@ + canonical_uri(*u),
{
    let ghost base = out@;
    let st: u8 = match u.scheme {
        URIScheme::Content => 0,
        URIScheme::File => 1,
        URIScheme::Other => 2,
    };
    let sx: u8 = match u.suffix {
        URISuffix::AAC => 0,
        URISuffix::APK => 1,
        URISuffix::GIF => 2,
        URISuffix::HTML => 3,
        URISuffix::JPG => 4,
        URISuffix::MIDI => 5,
        URISuffix::MP3 => 6,
        URISuffix::MP4 => 7,
        URISuffix::OGG => 8,
        URISuffix::PDF => 9,
        URISuffix::PNG => 10,
        URISuffix::TXT => 11,
        URISuffix::WAV => 12,
        URISuffix::WMA => 13,
        URISuffix::WMV => 14,
        URISuffix::XML => 15,
    };
    out.push(st);
    out.push(sx);
    push_u64_le(out, u.content.len() as u64);
    push_slice(out, u.content.as_slice());
    proof {
        assert(out@ =~= base + canonical_uri(*u));
    }
}

fn push_value(out: &mut Vec<u8>, v: &ExtraType)
    ensures
        final(out)@ == old(out)@ + canonical_value(*v),
{
    let ghost base = out@;
    match v {
        ExtraType::URI(u) => {
            out.push(5u8);
            push_uri(out, u);
        },
        ExtraType::String(d) => {
            out.push(0u8);
            push_u64_le(out, d.buffer.len() as u64);
            push_slice(out, d.buffer.as_slice());
        },
        ExtraType::Boolean(d) => {
            out.push(1u8);
            push_u64_le(out, d.buffer.len() as u64);
            push_slice(out, d.buffer.as_slice());
        },
        ExtraType::Int(d) => {
            out.push(2u8);
            push_u64_le(out, d.buffer.len() as u64);
            push_slice(out, d.buffer.as_slice());
        },
        ExtraType::Long(d) => {
            out.push(3u8);
            push_u64_le(out, d.buffer.len() as u64);
            push_slice(out, d.buffer.as_slice());
        },
        ExtraType::Float(d) => {
            out.push(4u8);
            push_u64_le(out, d.buffer.len() as u64);
            push_slice(out, d.buffer.as_slice());
        },
        ExtraType::ComponentName(d) => {
            out.push(6u8);
            push_u64_le(out, d.buffer.len() as u64);
            push_slice(out, d.buffer.as_slice());
        },
        ExtraType::IntArray(d) => {
            out.push(7u8);
            push_u64_le(out, d.buffer.len() as u64);
            push_slice(out, d.buffer.as_slice());
        },
        ExtraType::IntArrayList(d) => {
            out.push(8u8);
            push_u64_le(out, d.buffer.len() as u64);
            push_slice(out, d.buffer.as_slice());
        },
        ExtraType::LongArray(d) => {
            out.push(9u8);
            push_u64_le(out, d.buffer.len() as u64);
            push_slice(out, d.buffer.as_slice());
        },
        ExtraType::LongArrayList(d) => {
            out.push(10u8);
            push_u64_le(out, d.buffer.len() as u64);
            push_slice(out, d.buffer.as_slice());
        },
        ExtraType::FloatArray(d) => {
            out.push(11u8);
            push_u64_le(out, d.buffer.len() as u64);
            push_slice(out, d.buffer.as_slice());
        },
        ExtraType::FloatArrayList(d) => {
            out.push(12u8);
            push_u64_le(out, d.buffer.len() as u64);
            push_slice(out, d.buffer.as_slice());
        },
        ExtraType::StringArray(d) => {
            out.push(13u8);
            push_u64_le(out, d.buffer.len() as u64);
            push_slice(out, d.buffer.as_slice());
        },
        ExtraType::StringArrayList(d) => {
            out.push(14u8);
            push_u64_le(out, d.buffer.len() as u64);
            push_slice(out, d.buffer.as_slice());
        },
    }
    proof {
        assert(out@ =~= base + canonical_value(*v));
    }
}

impl IntentInput {
    /// The 128-bit content fingerprint of this input, as 32 lowercase hex
    /// digits: a function of the canonical byte stream of its serializable
    /// fields, so two inputs whose streams agree hash alike.
    pub fn hash(&self) -> (r: String)
        ensures
            r@ == farm_fingerprint_hex_of(canonical_stream(*self)),
            r@.len() == 32,
            forall|k: int| 0 <= k < r@.len() ==> is_lower_hex_char(#[trigger] r@[k]),
    {
        let mut stream: Vec<u8> = Vec::new();
        push_str_bytes(&mut stream, self.component().as_str());
        push_str_bytes(&mut stream, self.action.as_str());
        push_str_bytes(&mut stream, self.category.as_str());
        match &self.data {
            None => stream.push(0u8),
            Some(u) => {
                stream.push(1u8);
                push_uri(&mut stream, u);
            },
        }
        push_str_bytes(&mut stream, self.mime_type.text());
        push_u32_le(&mut stream, self.flags);
        let ghost head = stream@;
        let mut i: usize = 0;
        proof {
            assert(self.extras@.take(0) =~= Seq::<ExtraInput>::empty());
            assert(stream@ =~= head + canonical_extras(self.extras@.take(0)));
        }
        while i < self.extras.len()
            invariant
                i <= self.extras@.len(),
                stream@ == head + canonical_extras(self.extras@.take(i as int)),
            decreases self.extras@.len() - i,
        {
            let e: &ExtraInput = &self.extras[i];
            push_str_bytes(&mut stream, e.key.as_str());
            push_value(&mut stream, &e.value);
            proof {
                assert(self.extras@.take(i + 1).drop_last() =~= self.extras@.take(i as int));
                assert(self.extras@.take(i + 1).last() == self.extras@[i as int]);
                assert(stream@ =~= head + canonical_extras(self.extras@.take(i + 1)));
            }
            i += 1;
        }
        proof {
            assert(self.extras@.take(self.extras@.len() as int) =~= self.extras@);
            assert(stream@ =~= canonical_stream(*self));
        }
        farm_fingerprint_hex(&stream)
    }

    /// The corpus entry name for this input at index `idx`.
    pub fn generate_name(&self, idx: usize) -> (r: String)
        ensures
            r@ == ("id_")@ + dec_digits(idx as nat) + ("_")@ + farm_fingerprint_hex_of(
                canonical_stream(*self),
            ),
    {
        let mut r = String::from_str("id_");
        r.append(usize_text(idx).as_str());
        r.append("_");
        r.append(self.hash().as_str());
        r
    }
}


/// A numeric-array extra with an empty buffer is omitted from the command
/// entirely: it yields no fragment.
pub proof fn lemma_empty_numeric_array_omitted(e: ExtraInput, slot: nat)
    requires
        (match e.value {
            ExtraType::IntArray(d) => d.buffer@.len() == 0,
            ExtraType::IntArrayList(d) => d.buffer@.len() == 0,
            ExtraType::LongArray(d) => d.buffer@.len() == 0,
            ExtraType::LongArrayList(d) => d.buffer@.len() == 0,
            ExtraType::FloatArray(d) => d.buffer@.len() == 0,
            ExtraType::FloatArrayList(d) => d.buffer@.len() == 0,
            _ => false,
        }),
    ensures
        spec_command_args(e, slot) is None,
{
}

/// The command line is a function of the input value alone: equal inputs
/// serialize to byte-identical command lines.
pub proof fn lemma_shell_command_deterministic(a: IntentInput, b: IntentInput)
    requires
        a == b,
    ensures
        spec_shell_command(a) == spec_shell_command(b),
{
}

/// The hash is a function of the canonical stream alone: two inputs whose
/// serializable fields encode to the same stream hash identically.
pub proof fn lemma_hash_respects_stream(a: IntentInput, b: IntentInput)
    requires
        canonical_stream(a) == canonical_stream(b),
    ensures
        farm_fingerprint_hex_of(canonical_stream(a)) == farm_fingerprint_hex_of(
            canonical_stream(b),
        ),
{
}

/// A file-scheme identifier starts with the temporary-directory prefix and
/// the slot number, and ends with the chosen suffix.
pub proof fn lemma_file_identifier_shape(u: URIInput, slot: nat)
    requires
        u.scheme == URIScheme::File,
    ensures
        spec_identifier(u, slot) == ("file:///data/local/tmp/extra_input_")@ + dec_digits(slot)
            + spec_suffix_text(u.suffix),
        spec_identifier(u, slot).take(
            (("file:///data/local/tmp/extra_input_")@.len() + dec_digits(slot).len()) as int,
        ) == ("file:///data/local/tmp/extra_input_")@ + dec_digits(slot),
        spec_identifier(u, slot).skip(
            spec_identifier(u, slot).len() - spec_suffix_text(u.suffix).len() as int,
        ) == spec_suffix_text(u.suffix),
{
    let id = spec_identifier(u, slot);
    let head = ("file:///data/local/tmp/extra_input_")@ + dec_digits(slot);
    assert(id.take(head.len() as int) =~= head);
    assert(id.skip(id.len() - spec_suffix_text(u.suffix).len()) =~= spec_suffix_text(u.suffix));
}

} // verus!
