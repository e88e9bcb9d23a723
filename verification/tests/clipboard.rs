//! Clipboard contents and their files.

use sbc::clipboard::{
    create_temporary_image, encode_image, image_name, is_wsl, powershell_args, read,
    read_native_clipboard, read_windows_clipboard_from_wsl, wslenv_with_path, ClipboardAccess,
    Creation, CreationStep, ImageData, NativeEvent, NativeStep, TemporaryImage, WindowsEvent,
    WindowsStep, IMAGE_SCRIPT, NAME_ATTEMPTS, TEXT_SCRIPT,
};
use sbc::text::{decimal, holds_ignoring_capitals, OsText};

fn image(bytes: Vec<u8>, width: usize, height: usize) -> ImageData {
    ImageData { width, height, bytes }
}

#[test]
fn encodes_rgba_image_as_png() {
    let image = image(vec![255, 0, 0, 255], 1, 1);
    let bytes = encode_image(&image).unwrap();
    assert_eq!(&bytes[..8], b"\x89PNG\r\n\x1a\n");
}

#[test]
fn appends_wsl_path_translation() {
    let value = wslenv_with_path("SBC_CLIPBOARD_PATH", &None);
    assert!(value
        .split(':')
        .any(|entry| entry == "SBC_CLIPBOARD_PATH/p"));
}

#[test]
fn inherited_translations_are_kept() {
    let inherited = Some("A/p:B".to_owned());
    assert_eq!(wslenv_with_path("C", &inherited), "A/p:B:C/p");
    assert_eq!(wslenv_with_path("C", &Some(String::new())), "C/p");
}

#[test]
fn an_encoded_image_decodes_to_its_pixels() {
    let pixels = vec![255, 0, 0, 255, 0, 255, 0, 128];
    let bytes = encode_image(&image(pixels.clone(), 2, 1)).unwrap();
    let mut reader = png::Decoder::new(std::io::Cursor::new(bytes)).read_info().unwrap();
    assert_eq!(reader.info().width, 2);
    assert_eq!(reader.info().height, 1);
    assert_eq!(reader.info().color_type, png::ColorType::Rgba);
    assert_eq!(reader.info().bit_depth, png::BitDepth::Eight);
    let mut decoded = vec![0; 8];
    reader.next_frame(&mut decoded).unwrap();
    assert_eq!(decoded, pixels);
}

#[test]
fn images_with_wrong_sizes_are_refused() {
    let error = encode_image(&image(vec![1, 2, 3], 1, 1)).unwrap_err();
    assert_eq!(error.message(), "wrong data size, expected 4 got 3");
    let error = encode_image(&image(vec![0; 8], 1, 1)).unwrap_err();
    assert_eq!(error.message(), "wrong data size, expected 4 got 8");
    let error = encode_image(&image(vec![], 0, 1)).unwrap_err();
    assert_eq!(error.message(), "Zero width not allowed");
    let error = encode_image(&image(vec![], 1, 0)).unwrap_err();
    assert_eq!(error.message(), "Zero height not allowed");
    let error = encode_image(&image(vec![], 1 << 32, 1)).unwrap_err();
    assert_eq!(
        error.message(),
        u32::try_from(1_u64 << 32).unwrap_err().to_string()
    );
    let error = encode_image(&image(vec![], 1, 1 << 32)).unwrap_err();
    assert_eq!(
        error.message(),
        "out of range integral type conversion attempted"
    );
}

#[test]
fn image_names_tell_process_time_and_attempt() {
    assert_eq!(image_name(1234, 5678, 0), "sbc-1234-5678-0.png");
    assert_eq!(image_name(u32::MAX, u128::MAX, 15), format!(
        "sbc-{}-{}-15.png",
        u32::MAX,
        u128::MAX
    ));
    assert_ne!(image_name(1, 2, 3), image_name(1, 2, 4));
}

#[test]
fn numbers_are_written_in_decimal() {
    assert_eq!(decimal(0), "0");
    assert_eq!(decimal(10), "10");
    assert_eq!(decimal(907), "907");
    assert_eq!(decimal(u128::MAX), u128::MAX.to_string());
}

#[test]
fn taken_names_are_followed_by_the_next() {
    assert!(matches!(
        create_temporary_image(0, Creation::Created),
        CreationStep::Use
    ));
    assert!(matches!(
        create_temporary_image(0, Creation::AlreadyExists),
        CreationStep::Try(1)
    ));
    assert!(matches!(
        create_temporary_image(14, Creation::AlreadyExists),
        CreationStep::Try(15)
    ));
    let last = create_temporary_image(NAME_ATTEMPTS - 1, Creation::AlreadyExists);
    let CreationStep::Fail(error) = last else {
        panic!("expected a failure");
    };
    assert_eq!(
        error.message(),
        "could not allocate a temporary clipboard image"
    );
    let denied = create_temporary_image(3, Creation::Failed("denied".to_owned()));
    let CreationStep::Fail(error) = denied else {
        panic!("expected a failure");
    };
    assert_eq!(error.message(), "denied");
}

#[test]
fn temporary_images_have_a_path_and_a_name() {
    let image = TemporaryImage::new(OsText::from_text("/t/sbc-1.png"), "sbc-1.png".to_owned());
    assert_eq!(image.path(), &OsText::from_text("/t/sbc-1.png"));
    assert_eq!(image.name(), "sbc-1.png");
}

#[test]
fn linux_on_windows_is_recognised() {
    let release = Some("5.15.90.1-Microsoft-standard-WSL2".to_owned());
    assert!(is_wsl(true, false, &release));
    assert!(is_wsl(true, true, &None));
    assert!(!is_wsl(false, true, &release));
    assert!(!is_wsl(true, false, &Some("6.1.0-generic".to_owned())));
    assert!(!is_wsl(true, false, &None));
    assert_eq!(read(true), ClipboardAccess::Windows);
    assert_eq!(read(false), ClipboardAccess::Native);
}

#[test]
fn capitals_do_not_matter_to_a_search() {
    assert!(holds_ignoring_capitals("xMICROsoft", "microsoft"));
    assert!(holds_ignoring_capitals("abc", ""));
    assert!(!holds_ignoring_capitals("ab", "abc"));
    assert!(!holds_ignoring_capitals("m\u{130}crosoft", "microsoft"));
}

#[test]
fn the_native_clipboard_prefers_images() {
    assert!(matches!(
        read_native_clipboard(NativeEvent::Opened),
        NativeStep::GetImage
    ));
    let red = image(vec![255, 0, 0, 255], 1, 1);
    let NativeStep::UseImage(file) = read_native_clipboard(NativeEvent::Image(red)) else {
        panic!("expected an image");
    };
    assert_eq!(&file[1..4], b"PNG");
    assert!(matches!(
        read_native_clipboard(NativeEvent::NoImage),
        NativeStep::GetText
    ));
    assert!(matches!(
        read_native_clipboard(NativeEvent::Text("hi".to_owned())),
        NativeStep::UseText(text) if text == "hi"
    ));
}

#[test]
fn native_failures_are_told() {
    let closed = read_native_clipboard(NativeEvent::NotOpened("no display".to_owned()));
    let NativeStep::Fail(error) = closed else {
        panic!("expected a failure");
    };
    assert_eq!(error.message(), "clipboard unavailable: no display");
    let empty = read_native_clipboard(NativeEvent::NoText("nothing".to_owned()));
    let NativeStep::Fail(error) = empty else {
        panic!("expected a failure");
    };
    assert_eq!(
        error.message(),
        "clipboard contains no text or image: nothing"
    );
    let broken = read_native_clipboard(NativeEvent::Image(image(vec![1], 1, 1)));
    let NativeStep::Fail(error) = broken else {
        panic!("expected a failure");
    };
    assert_eq!(error.message(), "wrong data size, expected 4 got 1");
}

#[test]
fn the_windows_clipboard_prefers_images() {
    assert!(matches!(
        read_windows_clipboard_from_wsl(WindowsEvent::ImageCommand { success: true }),
        WindowsStep::UseImage
    ));
    assert!(matches!(
        read_windows_clipboard_from_wsl(WindowsEvent::ImageCommand { success: false }),
        WindowsStep::RunTextCommand
    ));
    let text = WindowsEvent::TextCommand {
        success: true,
        output: b"gr\xc3\xbcn".to_vec(),
    };
    assert!(matches!(
        read_windows_clipboard_from_wsl(text),
        WindowsStep::UseText(text) if text == "gr\u{fc}n"
    ));
}

#[test]
fn windows_failures_are_told() {
    let empty = WindowsEvent::TextCommand {
        success: false,
        output: Vec::new(),
    };
    let WindowsStep::Fail(error) = read_windows_clipboard_from_wsl(empty) else {
        panic!("expected a failure");
    };
    assert_eq!(
        error.message(),
        "Windows clipboard contains no text or image"
    );
    let broken = WindowsEvent::TextCommand {
        success: true,
        output: b"a\xff".to_vec(),
    };
    let WindowsStep::Fail(error) = read_windows_clipboard_from_wsl(broken) else {
        panic!("expected a failure");
    };
    assert_eq!(
        error.message(),
        String::from_utf8(b"a\xff".to_vec()).unwrap_err().to_string()
    );
    let missing = WindowsEvent::NotStarted("not found".to_owned());
    let WindowsStep::Fail(error) = read_windows_clipboard_from_wsl(missing) else {
        panic!("expected a failure");
    };
    assert_eq!(
        error.message(),
        "could not read the Windows clipboard: not found"
    );
}

#[test]
fn scripts_are_run_by_powershell() {
    assert_eq!(
        powershell_args("exit 3"),
        ["-NoProfile", "-NonInteractive", "-STA", "-Command", "exit 3"]
    );
    assert!(IMAGE_SCRIPT.contains("SBC_CLIPBOARD_PATH"));
    assert!(TEXT_SCRIPT.contains("Get-Clipboard -Raw"));
}
