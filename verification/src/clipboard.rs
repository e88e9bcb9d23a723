//! What the clipboard holds, and the image files made of it.

use vstd::prelude::*;
use vstd::string::*;
use vstd::utf8::*;

use crate::error::{Error, Failure};
use crate::text;
use crate::text::{decimal, decode_text, holds_ignoring_capitals, OsText};

verus! {

/// An image as the clipboard hands it over: rows of pixels, each with a byte
/// for red, green, blue and opacity.
#[derive(Debug)]
pub struct ImageData {
    pub width: usize,
    pub height: usize,
    pub bytes: Vec<u8>,
}

/// The PNG file of an image with 8 bits of red, green, blue and opacity.
pub uninterp spec fn png_encoding(width: u32, height: u32, pixels: Seq<u8>) -> Seq<u8>;

/// The bytes that every PNG file starts with.
pub open spec fn png_signature() -> Seq<u8> {
    seq![0x89u8, 0x50, 0x4e, 0x47, 0x0d, 0x0a, 0x1a, 0x0a]
}

/// Why an image with so many bytes of pixels cannot be encoded.
pub open spec fn encoding_failure(width: u32, height: u32, size: nat) -> Option<Seq<char>> {
    if width == 0 {
        Some("Zero width not allowed"@)
    } else if height == 0 {
        Some("Zero height not allowed"@)
    } else if size != width * height * 4 {
        Some(
            "wrong data size, expected "@ + text::decimal_text((width * height * 4) as nat)
                + " got "@ + text::decimal_text(size),
        )
    } else {
        None
    }
}

/// Encodes with `png::Encoder`, set to 8-bit RGBA: `write_header` refuses an
/// empty image, `write_image_data` any other number of bytes than four for each
/// pixel, and writing to memory does not fail. What it writes is named, and
/// starts with the PNG signature.
#[verifier::external_body]
fn encode_rgba(width: u32, height: u32, pixels: &[u8]) -> (r: Result<Vec<u8>, String>)
    requires
        width * height * 4 <= usize::MAX,
    ensures
        r is Ok <==> encoding_failure(width, height, pixels@.len()) is None,
        r matches Ok(file) ==> file@ == png_encoding(width, height, pixels@)
            && png_signature().is_prefix_of(file@),
        r matches Err(message) ==> Some(message@) == encoding_failure(
            width,
            height,
            pixels@.len(),
        ),
{
    let mut file = Vec::new();
    let mut encoder = png::Encoder::new(&mut file, width, height);
    encoder.set_color(png::ColorType::Rgba);
    encoder.set_depth(png::BitDepth::Eight);
    let written = match encoder.write_header() {
        Ok(mut writer) => writer.write_image_data(pixels),
        Err(error) => Err(error),
    };
    match written {
        Ok(()) => Ok(file),
        Err(error) => Err(error.to_string()),
    }
}

/// Why an image cannot become a PNG file.
pub open spec fn image_failure(image: ImageData) -> Option<Failure<Seq<char>>> {
    if image.width > u32::MAX || image.height > u32::MAX {
        Some(Failure::ImageTooLarge)
    } else {
        match encoding_failure(image.width as u32, image.height as u32, image.bytes@.len()) {
            Some(message) => Some(Failure::ImageNotEncoded(message)),
            None => None,
        }
    }
}

/// The size in bytes of the pixels can be counted.
pub open spec fn is_countable(image: ImageData) -> bool {
    image.width <= u32::MAX && image.height <= u32::MAX ==> image.width * image.height * 4
        <= usize::MAX
}

/// Makes a PNG file of an image.
pub fn encode_image(image: &ImageData) -> (r: Result<Vec<u8>, Error>)
    requires
        is_countable(*image),
    ensures
        match image_failure(*image) {
            None => r is Ok && r->Ok_0@ == png_encoding(
                image.width as u32,
                image.height as u32,
                image.bytes@,
            ) && png_signature().is_prefix_of(r->Ok_0@),
            Some(failure) => r is Err && r->Err_0@ == failure,
        },
{
    if image.width > 0xffff_ffff || image.height > 0xffff_ffff {
        return Err(Failure::ImageTooLarge);
    }
    match encode_rgba(image.width as u32, image.height as u32, image.bytes.as_slice()) {
        Ok(file) => Ok(file),
        Err(message) => Err(Failure::ImageNotEncoded(message)),
    }
}

/// A file for a clipboard image.
#[derive(Debug)]
pub struct TemporaryImage {
    path: OsText,
    name: String,
}

impl TemporaryImage {
    pub closed spec fn path_bytes(&self) -> Seq<u8> {
        self.path@
    }

    pub closed spec fn name_text(&self) -> Seq<char> {
        self.name@
    }

    pub fn new(path: OsText, name: String) -> (r: Self)
        ensures
            r.path_bytes() == path@,
            r.name_text() == name@,
    {
        TemporaryImage { path, name }
    }

    pub fn path(&self) -> (r: &OsText)
        ensures
            r@ == self.path_bytes(),
    {
        &self.path
    }

    pub fn name(&self) -> (r: &str)
        ensures
            r@ == self.name_text(),
    {
        self.name.as_str()
    }
}

/// How many names are tried for a temporary image.
pub const NAME_ATTEMPTS: u8 = 16;

/// The name of a temporary image: process, time in nanoseconds and a suffix.
pub open spec fn image_name_text(process: u32, timestamp: u128, suffix: u8) -> Seq<char> {
    "sbc-"@ + text::decimal_text(process as nat) + "-"@ + text::decimal_text(timestamp as nat)
        + "-"@ + text::decimal_text(suffix as nat) + ".png"@
}

pub fn image_name(process: u32, timestamp: u128, suffix: u8) -> (r: String)
    ensures
        r@ == image_name_text(process, timestamp, suffix),
{
    let mut r = "sbc-".to_owned();
    r.append(decimal(process as u128).as_str());
    r.append("-");
    r.append(decimal(timestamp).as_str());
    r.append("-");
    r.append(decimal(suffix as u128).as_str());
    r.append(".png");
    r
}

/// What became of creating the file for a name.
#[derive(Debug)]
pub enum Creation {
    Created,
    AlreadyExists,
    Failed(String),
}

/// What to do after that.
#[derive(Debug)]
pub enum CreationStep {
    /// The file is there.
    Use,
    /// Try the name with this suffix.
    Try(u8),
    Fail(Error),
}

pub enum CreationStepView {
    Use,
    Try(u8),
    Fail(Failure<Seq<char>>),
}

impl View for CreationStep {
    type V = CreationStepView;

    open spec fn view(&self) -> CreationStepView {
        match *self {
            CreationStep::Use => CreationStepView::Use,
            CreationStep::Try(suffix) => CreationStepView::Try(suffix),
            CreationStep::Fail(error) => CreationStepView::Fail(error@),
        }
    }
}

/// What to do after the attempt with `suffix`.
pub open spec fn creation_step(suffix: u8, creation: Creation) -> CreationStepView {
    match creation {
        Creation::Created => CreationStepView::Use,
        Creation::AlreadyExists => if suffix + 1 < NAME_ATTEMPTS {
            CreationStepView::Try((suffix + 1) as u8)
        } else {
            CreationStepView::Fail(Failure::NoTemporaryImage)
        },
        Creation::Failed(cause) => CreationStepView::Fail(Failure::Reported(cause@)),
    }
}

/// Goes on after the attempt with `suffix`: a name that is taken is followed by
/// the next one, up to the last.
pub fn create_temporary_image(suffix: u8, creation: Creation) -> (r: CreationStep)
    requires
        suffix < NAME_ATTEMPTS,
    ensures
        r@ == creation_step(suffix, creation),
        match creation {
            Creation::Created => r is Use,
            Creation::AlreadyExists => if suffix + 1 < NAME_ATTEMPTS {
                r matches CreationStep::Try(next) && next == suffix + 1
            } else {
                r matches CreationStep::Fail(error) && error@ is NoTemporaryImage
            },
            Creation::Failed(cause) => r matches CreationStep::Fail(error) && error@
                == Failure::Reported(cause@),
        },
{
    match creation {
        Creation::Created => CreationStep::Use,
        Creation::AlreadyExists => if suffix + 1 < NAME_ATTEMPTS {
            CreationStep::Try(suffix + 1)
        } else {
            CreationStep::Fail(Failure::NoTemporaryImage)
        },
        Creation::Failed(cause) => CreationStep::Fail(Failure::Reported(cause)),
    }
}

/// Where the clipboard is read.
#[derive(Clone, Copy, Debug, PartialEq, Eq, Structural)]
pub enum ClipboardAccess {
    /// Through the clipboard of this system.
    Native,
    /// Through Windows, from a Linux that runs on it.
    Windows,
}

pub fn read(wsl: bool) -> (r: ClipboardAccess)
    ensures
        r == if wsl {
            ClipboardAccess::Windows
        } else {
            ClipboardAccess::Native
        },
{
    if wsl {
        ClipboardAccess::Windows
    } else {
        ClipboardAccess::Native
    }
}

/// The system is a Linux that runs on Windows.
pub open spec fn runs_on_windows(
    linux: bool,
    distribution_named: bool,
    kernel_release: Option<Seq<char>>,
) -> bool {
    linux && (distribution_named || (kernel_release matches Some(release) && text::occurs_in(
        release.map_values(|c: char| text::lower_char(c)),
        "microsoft"@,
    )))
}

/// Whether this is a Linux that runs on Windows: its distribution name is set,
/// or the kernel release names Microsoft.
pub fn is_wsl(linux: bool, distribution_named: bool, kernel_release: &Option<String>) -> (r: bool)
    ensures
        r == runs_on_windows(linux, distribution_named, text::optional_text(*kernel_release)),
        r == (linux && (distribution_named || (kernel_release matches Some(release)
            && text::occurs_in(release@.map_values(|c: char| text::lower_char(c)), "microsoft"@)))),
{
    linux && (distribution_named || match kernel_release {
        Some(release) => holds_ignoring_capitals(release.as_str(), "microsoft"),
        None => false,
    })
}

/// What became of the last step of reading the native clipboard.
#[derive(Debug)]
pub enum NativeEvent {
    Opened,
    NotOpened(String),
    Image(ImageData),
    NoImage,
    Text(String),
    NoText(String),
}

/// The next step.
#[derive(Debug)]
pub enum NativeStep {
    GetImage,
    GetText,
    /// The clipboard holds an image: this is its PNG file.
    UseImage(Vec<u8>),
    /// The clipboard holds this text.
    UseText(String),
    Fail(Error),
}

pub enum NativeStepView {
    GetImage,
    GetText,
    UseImage(Seq<u8>),
    UseText(Seq<char>),
    Fail(Failure<Seq<char>>),
}

impl View for NativeStep {
    type V = NativeStepView;

    open spec fn view(&self) -> NativeStepView {
        match *self {
            NativeStep::GetImage => NativeStepView::GetImage,
            NativeStep::GetText => NativeStepView::GetText,
            NativeStep::UseImage(file) => NativeStepView::UseImage(file@),
            NativeStep::UseText(text) => NativeStepView::UseText(text@),
            NativeStep::Fail(error) => NativeStepView::Fail(error@),
        }
    }
}

/// What to do after a step of reading the native clipboard.
pub open spec fn native_step(event: NativeEvent) -> NativeStepView {
    match event {
        NativeEvent::Opened => NativeStepView::GetImage,
        NativeEvent::NotOpened(cause) => NativeStepView::Fail(Failure::ClipboardUnavailable(cause@)),
        NativeEvent::Image(image) => match image_failure(image) {
            None => NativeStepView::UseImage(
                png_encoding(image.width as u32, image.height as u32, image.bytes@),
            ),
            Some(failure) => NativeStepView::Fail(failure),
        },
        NativeEvent::NoImage => NativeStepView::GetText,
        NativeEvent::Text(text) => NativeStepView::UseText(text@),
        NativeEvent::NoText(cause) => NativeStepView::Fail(Failure::ClipboardEmpty(cause@)),
    }
}

/// Reads the native clipboard: an image where there is one, and text otherwise.
pub fn read_native_clipboard(event: NativeEvent) -> (r: NativeStep)
    requires
        event matches NativeEvent::Image(image) ==> is_countable(image),
    ensures
        r@ == native_step(event),
        match event {
            NativeEvent::Opened => r is GetImage,
            NativeEvent::NotOpened(cause) => r matches NativeStep::Fail(error) && error@
                == Failure::ClipboardUnavailable(cause@),
            NativeEvent::Image(image) => match image_failure(image) {
                None => r matches NativeStep::UseImage(file) && file@ == png_encoding(
                    image.width as u32,
                    image.height as u32,
                    image.bytes@,
                ),
                Some(failure) => r matches NativeStep::Fail(error) && error@ == failure,
            },
            NativeEvent::NoImage => r is GetText,
            NativeEvent::Text(text) => r == NativeStep::UseText(text),
            NativeEvent::NoText(cause) => r matches NativeStep::Fail(error) && error@
                == Failure::ClipboardEmpty(cause@),
        },
{
    match event {
        NativeEvent::Opened => NativeStep::GetImage,
        NativeEvent::NotOpened(cause) => NativeStep::Fail(Failure::ClipboardUnavailable(cause)),
        NativeEvent::Image(image) => match encode_image(&image) {
            Ok(file) => NativeStep::UseImage(file),
            Err(error) => NativeStep::Fail(error),
        },
        NativeEvent::NoImage => NativeStep::GetText,
        NativeEvent::Text(text) => NativeStep::UseText(text),
        NativeEvent::NoText(cause) => NativeStep::Fail(Failure::ClipboardEmpty(cause)),
    }
}

/// What became of the last command that asked Windows for its clipboard.
#[derive(Debug)]
pub enum WindowsEvent {
    /// The image command ended; it succeeds where it wrote an image file.
    ImageCommand { success: bool },
    /// The text command ended, having printed this.
    TextCommand { success: bool, output: Vec<u8> },
    /// A command did not start.
    NotStarted(String),
}

/// The next step.
#[derive(Debug)]
pub enum WindowsStep {
    /// The clipboard holds an image, which is in the file now.
    UseImage,
    /// The clipboard holds no image: ask for text.
    RunTextCommand,
    /// The clipboard holds this text.
    UseText(String),
    Fail(Error),
}

pub enum WindowsStepView {
    UseImage,
    RunTextCommand,
    UseText(Seq<char>),
    Fail(Failure<Seq<char>>),
}

impl View for WindowsStep {
    type V = WindowsStepView;

    open spec fn view(&self) -> WindowsStepView {
        match *self {
            WindowsStep::UseImage => WindowsStepView::UseImage,
            WindowsStep::RunTextCommand => WindowsStepView::RunTextCommand,
            WindowsStep::UseText(text) => WindowsStepView::UseText(text@),
            WindowsStep::Fail(error) => WindowsStepView::Fail(error@),
        }
    }
}

/// What to do after a command that asked Windows for its clipboard.
pub open spec fn windows_step(event: WindowsEvent) -> WindowsStepView {
    match event {
        WindowsEvent::ImageCommand { success } => if success {
            WindowsStepView::UseImage
        } else {
            WindowsStepView::RunTextCommand
        },
        WindowsEvent::TextCommand { success, output } => if !success {
            WindowsStepView::Fail(Failure::WindowsClipboardEmpty)
        } else if valid_utf8(output@) {
            WindowsStepView::UseText(decode_utf8(output@))
        } else {
            WindowsStepView::Fail(
                Failure::ClipboardTextNotUtf8(text::utf8_error_text(output@)),
            )
        },
        WindowsEvent::NotStarted(cause) => WindowsStepView::Fail(
            Failure::WindowsClipboardUnreadable(cause@),
        ),
    }
}

/// Reads the Windows clipboard: an image where there is one, and text otherwise.
pub fn read_windows_clipboard_from_wsl(event: WindowsEvent) -> (r: WindowsStep)
    ensures
        r@ == windows_step(event),
        match event {
            WindowsEvent::ImageCommand { success } => if success {
                r is UseImage
            } else {
                r is RunTextCommand
            },
            WindowsEvent::TextCommand { success, output } => if !success {
                r matches WindowsStep::Fail(error) && error@ is WindowsClipboardEmpty
            } else if valid_utf8(output@) {
                r matches WindowsStep::UseText(text) && text@ == decode_utf8(output@)
            } else {
                r matches WindowsStep::Fail(error) && error@ == Failure::ClipboardTextNotUtf8(
                    text::utf8_error_text(output@),
                )
            },
            WindowsEvent::NotStarted(cause) => r matches WindowsStep::Fail(error) && error@
                == Failure::WindowsClipboardUnreadable(cause@),
        },
{
    match event {
        WindowsEvent::ImageCommand { success } => if success {
            WindowsStep::UseImage
        } else {
            WindowsStep::RunTextCommand
        },
        WindowsEvent::TextCommand { success, output } => if !success {
            WindowsStep::Fail(Failure::WindowsClipboardEmpty)
        } else {
            match decode_text(output.as_slice()) {
                Ok(text) => WindowsStep::UseText(text),
                Err(message) => WindowsStep::Fail(Failure::ClipboardTextNotUtf8(message)),
            }
        },
        WindowsEvent::NotStarted(cause) => WindowsStep::Fail(
            Failure::WindowsClipboardUnreadable(cause),
        ),
    }
}

/// The PowerShell script that saves the clipboard's image to a file.
pub const IMAGE_SCRIPT: &'static str = "Add-Type -AssemblyName System.Windows.Forms; Add-Type -AssemblyName System.Drawing; $image = [Windows.Forms.Clipboard]::GetImage(); if ($null -eq $image) { exit 3 }; $image.Save($env:SBC_CLIPBOARD_PATH, [Drawing.Imaging.ImageFormat]::Png)";

/// The PowerShell script that prints the clipboard's text.
pub const TEXT_SCRIPT: &'static str = "$OutputEncoding = [Console]::OutputEncoding = [Text.UTF8Encoding]::new(); $value = Get-Clipboard -Raw; if ($null -eq $value) { exit 3 }; [Console]::Out.Write($value)";

/// The arguments of PowerShell that run a clipboard script.
pub open spec fn powershell_words(script: Seq<char>) -> Seq<Seq<char>> {
    seq!["-NoProfile"@, "-NonInteractive"@, "-STA"@, "-Command"@, script]
}

pub fn powershell_args(script: &str) -> (r: Vec<String>)
    ensures
        r@.map_values(|s: String| s@) == powershell_words(script@),
{
    let r: Vec<String> = vec![
        "-NoProfile".to_owned(),
        "-NonInteractive".to_owned(),
        "-STA".to_owned(),
        "-Command".to_owned(),
        script.to_owned(),
    ];
    assert(r@.map_values(|s: String| s@) =~= powershell_words(script@));
    r
}

/// The value of `WSLENV` with the path in the variable `name`.
pub open spec fn wslenv_text(name: Seq<char>, existing: Option<Seq<char>>) -> Seq<char> {
    if existing is Some && existing->0.len() > 0 {
        existing->0 + ":"@ + name + "/p"@
    } else {
        name + "/p"@
    }
}

/// The value of `WSLENV` that also hands the path in the variable `name` over
/// to Windows. `existing` is its value so far.
pub fn wslenv_with_path(name: &str, existing: &Option<String>) -> (r: String)
    ensures
        r@ == wslenv_text(name@, text::optional_text(*existing)),
        r@ == match *existing {
            Some(value) => if value@.len() > 0 {
                value@ + ":"@ + name@ + "/p"@
            } else {
                name@ + "/p"@
            },
            None => name@ + "/p"@,
        },
{
    match existing {
        Some(value) => {
            if !value.as_str().is_empty() {
                return value.clone().concat(":").concat(name).concat("/p");
            }
        },
        None => {},
    }
    name.to_owned().concat("/p")
}

/// Two suffixes give two names.
pub proof fn law_image_names_differ(process: u32, timestamp: u128, first: u8, second: u8)
    requires
        first != second,
    ensures
        image_name_text(process, timestamp, first) != image_name_text(process, timestamp, second),
{
    let a = image_name_text(process, timestamp, first);
    let b = image_name_text(process, timestamp, second);
    let front = "sbc-"@ + text::decimal_text(process as nat) + "-"@ + text::decimal_text(
        timestamp as nat,
    ) + "-"@;
    let da = text::decimal_text(first as nat);
    let db = text::decimal_text(second as nat);
    if a == b {
        assert(a.len() == front.len() + da.len() + ".png"@.len());
        assert(b.len() == front.len() + db.len() + ".png"@.len());
        assert(a.subrange(front.len() as int, (front.len() + da.len()) as int) =~= da);
        assert(b.subrange(front.len() as int, (front.len() + db.len()) as int) =~= db);
        text::lemma_decimal_is_unique(first as nat, second as nat);
    }
}

/// Sixteen names are tried for a temporary image, with the suffixes 0 to 15 in
/// turn: a name that is taken leads to the next one, and after the last to a
/// failure. A file that was created is used; any other failure is told as it is.
pub proof fn law_names_are_tried_in_turn(suffix: u8, cause: String)
    requires
        suffix <= 15,
    ensures
        creation_step(suffix, Creation::Created) is Use,
        suffix < 15 ==> creation_step(suffix, Creation::AlreadyExists) == CreationStepView::Try(
            (suffix + 1) as u8,
        ),
        suffix == 15 ==> creation_step(suffix, Creation::AlreadyExists) == CreationStepView::Fail(
            Failure::NoTemporaryImage,
        ),
        creation_step(suffix, Creation::Failed(cause)) == CreationStepView::Fail(
            Failure::Reported(cause@),
        ),
{
}

/// At position `i` of `s` stands the word Microsoft, in letters of either case.
pub open spec fn microsoft_at(s: Seq<char>, i: int) -> bool {
    &&& 0 <= i && i + 9 <= s.len()
    &&& s[i] == 'm' || s[i] == 'M'
    &&& s[i + 1] == 'i' || s[i + 1] == 'I'
    &&& s[i + 2] == 'c' || s[i + 2] == 'C'
    &&& s[i + 3] == 'r' || s[i + 3] == 'R'
    &&& s[i + 4] == 'o' || s[i + 4] == 'O'
    &&& s[i + 5] == 's' || s[i + 5] == 'S'
    &&& s[i + 6] == 'o' || s[i + 6] == 'O'
    &&& s[i + 7] == 'f' || s[i + 7] == 'F'
    &&& s[i + 8] == 't' || s[i + 8] == 'T'
}

/// Windows is recognised under a Linux by the name of the distribution, or by the
/// word Microsoft, in letters of either case, anywhere in the kernel's release.
pub proof fn law_windows_is_recognised(named: bool, release: Seq<char>)
    ensures
        runs_on_windows(true, named, Some(release)) <==> named || exists|i: int|
            microsoft_at(release, i),
        runs_on_windows(true, named, None) <==> named,
        !runs_on_windows(false, named, Some(release)),
        !runs_on_windows(false, named, None),
{
    reveal_strlit("microsoft");
    let word = seq!['m', 'i', 'c', 'r', 'o', 's', 'o', 'f', 't'];
    assert("microsoft"@ =~= word);
    let lowered = release.map_values(|c: char| text::lower_char(c));
    assert forall|i: int| #[trigger] microsoft_at(release, i) <==> text::occurs_at(
        lowered,
        word,
        i,
    ) by {
        if 0 <= i && i + 9 <= release.len() {
            let low = lowered.subrange(i, i + 9);
            assert forall|k: int| 0 <= k < 9 implies #[trigger] low[k] == text::lower_char(
                release[i + k],
            ) by {}
            assert(low[0] == text::lower_char(release[i]));
            if microsoft_at(release, i) {
                assert(low =~= word);
            }
            if low == word {
                assert(low[0] == 'm' && low[1] == 'i' && low[2] == 'c' && low[3] == 'r' && low[4]
                    == 'o' && low[5] == 's' && low[6] == 'o' && low[7] == 'f' && low[8] == 't');
            }
        }
    }
    if text::occurs_in(lowered, word) {
        let i = choose|i: int| text::occurs_at(lowered, word, i);
        assert(microsoft_at(release, i));
    }
}

/// The native clipboard gives an image where it holds one that can be encoded, of
/// its width, height and pixels, and else its text as it is.
pub proof fn law_native_clipboard(image: ImageData, text: String, cause: String)
    requires
        0 < image.width <= 0xffff_ffff,
        0 < image.height <= 0xffff_ffff,
        image.bytes@.len() == image.width * image.height * 4,
    ensures
        native_step(NativeEvent::Opened) is GetImage,
        native_step(NativeEvent::Image(image)) == NativeStepView::UseImage(
            png_encoding(image.width as u32, image.height as u32, image.bytes@),
        ),
        native_step(NativeEvent::NoImage) is GetText,
        native_step(NativeEvent::Text(text)) == NativeStepView::UseText(text@),
        native_step(NativeEvent::NotOpened(cause)) == NativeStepView::Fail(
            Failure::ClipboardUnavailable(cause@),
        ),
        native_step(NativeEvent::NoText(cause)) == NativeStepView::Fail(
            Failure::ClipboardEmpty(cause@),
        ),
{
}

/// An image is refused if and only if a side is zero or needs more than 32 bits,
/// or there are not four bytes for each pixel.
pub proof fn law_images_are_judged(image: ImageData)
    ensures
        image_failure(image) is None <==> 0 < image.width <= 0xffff_ffff && 0 < image.height
            <= 0xffff_ffff && image.bytes@.len() == image.width * image.height * 4,
        image_failure(image) is Some && image_failure(image)->0 is ImageTooLarge <==> image.width
            > 0xffff_ffff || image.height > 0xffff_ffff,
{
}

/// The Windows clipboard gives an image where the image command saved one, and else
/// the text that the text command printed, decoded as it is.
pub proof fn law_windows_clipboard(output: Vec<u8>, cause: String)
    ensures
        windows_step(WindowsEvent::ImageCommand { success: true }) is UseImage,
        windows_step(WindowsEvent::ImageCommand { success: false }) is RunTextCommand,
        valid_utf8(output@) ==> windows_step(
            WindowsEvent::TextCommand { success: true, output },
        ) == WindowsStepView::UseText(decode_utf8(output@)),
        !valid_utf8(output@) ==> windows_step(
            WindowsEvent::TextCommand { success: true, output },
        ) == WindowsStepView::Fail(Failure::ClipboardTextNotUtf8(text::utf8_error_text(output@))),
        windows_step(WindowsEvent::TextCommand { success: false, output })
            == WindowsStepView::Fail(Failure::WindowsClipboardEmpty),
        windows_step(WindowsEvent::NotStarted(cause)) == WindowsStepView::Fail(
            Failure::WindowsClipboardUnreadable(cause@),
        ),
{
}

/// `WSLENV` keeps all that it held, and gets the entry `NAME/p` behind it, after a
/// colon where there is anything before it.
pub proof fn law_wslenv_keeps_its_entries(name: Seq<char>, existing: Seq<char>)
    ensures
        wslenv_text(name, None) == name + seq!['/', 'p'],
        wslenv_text(name, Some(Seq::empty())) == name + seq!['/', 'p'],
        existing.len() > 0 ==> wslenv_text(name, Some(existing)) == existing + seq![':'] + name
            + seq!['/', 'p'],
{
    reveal_strlit(":");
    reveal_strlit("/p");
    assert("/p"@ =~= seq!['/', 'p']);
    assert(":"@ =~= seq![':']);
}

/// A clipboard script is handed to PowerShell as the last of its five arguments. One
/// script saves the image to the path in the environment, as PNG; the other prints
/// the text in UTF-8.
pub proof fn law_powershell_runs_the_script(script: Seq<char>)
    ensures
        powershell_words(script).len() == 5,
        powershell_words(script).take(4) == seq![
            "-NoProfile"@,
            "-NonInteractive"@,
            "-STA"@,
            "-Command"@,
        ],
        powershell_words(script)[4] == script,
        IMAGE_SCRIPT@
            == "Add-Type -AssemblyName System.Windows.Forms; Add-Type -AssemblyName System.Drawing; $image = [Windows.Forms.Clipboard]::GetImage(); if ($null -eq $image) { exit 3 }; $image.Save($env:SBC_CLIPBOARD_PATH, [Drawing.Imaging.ImageFormat]::Png)"@,
        TEXT_SCRIPT@
            == "$OutputEncoding = [Console]::OutputEncoding = [Text.UTF8Encoding]::new(); $value = Get-Clipboard -Raw; if ($null -eq $value) { exit 3 }; [Console]::Out.Write($value)"@,
{
    assert(powershell_words(script).take(4) =~= seq![
        "-NoProfile"@,
        "-NonInteractive"@,
        "-STA"@,
        "-Command"@,
    ]);
}

/// Digits up to a hyphen are read in one way only.
pub proof fn lemma_digits_before_hyphen(
    a: Seq<char>,
    b: Seq<char>,
    x: Seq<char>,
    y: Seq<char>,
)
    requires
        forall|i: int| 0 <= i < a.len() ==> '0' <= #[trigger] a[i] <= '9',
        forall|i: int| 0 <= i < b.len() ==> '0' <= #[trigger] b[i] <= '9',
        a + seq!['-'] + x == b + seq!['-'] + y,
    ensures
        a == b,
        x == y,
{
    let s = a + seq!['-'] + x;
    let t = b + seq!['-'] + y;
    assert(s[a.len() as int] == '-');
    assert(t[b.len() as int] == '-');
    if a.len() < b.len() {
        assert(t[a.len() as int] == b[a.len() as int]);
        assert(false);
    }
    if b.len() < a.len() {
        assert(s[b.len() as int] == a[b.len() as int]);
        assert(false);
    }
    assert(s.take(a.len() as int) =~= a);
    assert(t.take(b.len() as int) =~= b);
    assert(s.skip((a.len() + 1) as int) =~= x);
    assert(t.skip((b.len() + 1) as int) =~= y);
}

/// A temporary image's name behind `sbc-`, with its parts nested.
proof fn lemma_image_name(process: u32, timestamp: u128, suffix: u8)
    ensures
        ({
            let name = image_name_text(process, timestamp, suffix);
            let end = text::decimal_text(suffix as nat) + ".png"@;
            let later = text::decimal_text(timestamp as nat) + seq!['-'] + end;
            &&& name == "sbc-"@ + (text::decimal_text(process as nat) + seq!['-'] + later)
            &&& "sbc-"@.len() == 4 && ".png"@.len() == 4
        }),
{
    reveal_strlit("sbc-");
    reveal_strlit("-");
    reveal_strlit(".png");
    assert("-"@ =~= seq!['-']);
    let end = text::decimal_text(suffix as nat) + ".png"@;
    let later = text::decimal_text(timestamp as nat) + seq!['-'] + end;
    assert(image_name_text(process, timestamp, suffix) =~= "sbc-"@ + (text::decimal_text(
        process as nat,
    ) + seq!['-'] + later));
}

/// Every temporary image's name starts with `sbc-` and ends with `.png`.
pub proof fn law_image_names_have_their_form(process: u32, timestamp: u128, suffix: u8)
    ensures
        "sbc-"@.is_prefix_of(image_name_text(process, timestamp, suffix)),
        ".png"@.is_suffix_of(image_name_text(process, timestamp, suffix)),
{
    let name = image_name_text(process, timestamp, suffix);
    lemma_image_name(process, timestamp, suffix);
    assert(name.subrange(0, 4) =~= "sbc-"@);
    assert(name.subrange(name.len() - 4, name.len() as int) =~= ".png"@);
}

/// The names of temporary images tell process, time and suffix: two of them are
/// the same only where all three are.
pub proof fn law_image_names_are_unique(
    process: u32,
    timestamp: u128,
    suffix: u8,
    other_process: u32,
    other_timestamp: u128,
    other_suffix: u8,
)
    requires
        image_name_text(process, timestamp, suffix) == image_name_text(
            other_process,
            other_timestamp,
            other_suffix,
        ),
    ensures
        process == other_process && timestamp == other_timestamp && suffix == other_suffix,
{
    lemma_image_name(process, timestamp, suffix);
    lemma_image_name(other_process, other_timestamp, other_suffix);
    let p1 = text::decimal_text(process as nat);
    let t1 = text::decimal_text(timestamp as nat);
    let s1 = text::decimal_text(suffix as nat);
    let p2 = text::decimal_text(other_process as nat);
    let t2 = text::decimal_text(other_timestamp as nat);
    let s2 = text::decimal_text(other_suffix as nat);
    let x1 = t1 + seq!['-'] + (s1 + ".png"@);
    let x2 = t2 + seq!['-'] + (s2 + ".png"@);
    lemma_same_tail("sbc-"@, p1 + seq!['-'] + x1, p2 + seq!['-'] + x2);
    text::lemma_decimal_digits(process as nat);
    text::lemma_decimal_digits(other_process as nat);
    lemma_digits_before_hyphen(p1, p2, x1, x2);
    text::lemma_decimal_digits(timestamp as nat);
    text::lemma_decimal_digits(other_timestamp as nat);
    lemma_digits_before_hyphen(t1, t2, s1 + ".png"@, s2 + ".png"@);
    lemma_same_front(s1, s2, ".png"@);
    text::lemma_decimal_is_unique(process as nat, other_process as nat);
    text::lemma_decimal_is_unique(timestamp as nat, other_timestamp as nat);
    text::lemma_decimal_is_unique(suffix as nat, other_suffix as nat);
}

proof fn lemma_same_tail(front: Seq<char>, a: Seq<char>, b: Seq<char>)
    requires
        front + a == front + b,
    ensures
        a == b,
{
    assert((front + a).skip(front.len() as int) =~= a);
    assert((front + b).skip(front.len() as int) =~= b);
}

proof fn lemma_same_front(a: Seq<char>, b: Seq<char>, end: Seq<char>)
    requires
        a + end == b + end,
    ensures
        a == b,
{
    assert((a + end).len() == (b + end).len());
    assert((a + end).take(a.len() as int) =~= a);
    assert((b + end).take(b.len() as int) =~= b);
}

} // verus!
