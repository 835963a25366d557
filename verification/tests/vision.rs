use tauri_llm::downloads::StepEvent;
use tauri_llm::model_runtime::parse_image_data_url;
use tauri_llm::vision::{
    capture_window, captured_window, check_capture_size, check_window, choose_window, encode_picture, first_listed,
    image_data_url, list_windows, next_capture_step, offer_window, parse_window_id, picture_of, process_name,
    to_opaque_rgba, valid_window_rect, CaptureStep, ForegroundWindow, ProgramPath, VisualWindowTarget, WindowChoice,
    WindowInfo, WindowRect,
};

fn message_of<T>(result: Result<T, String>) -> String {
    match result {
        Ok(_) => panic!("an error was expected"),
        Err(message) => message,
    }
}

fn rect(width: i32, height: i32) -> Option<WindowRect> {
    Some(WindowRect { left: -10, top: 5, right: width - 10, bottom: height + 5 })
}

fn window(handle: usize, title: &str, process_id: u32) -> WindowInfo {
    WindowInfo {
        handle,
        visible: true,
        rect: rect(200, 100),
        title: title.to_string(),
        process_id,
        program: Some(ProgramPath { full: "C:\\p\\App.exe".to_string(), file_name: Some("App.exe".to_string()) }),
        minimized: false,
    }
}

#[test]
fn unsupported_systems_have_no_windows() {
    assert_eq!(message_of(list_windows(None, 1)), "窗口视觉理解目前仅支持 Windows");
    assert_eq!(message_of(capture_window(None)), "窗口视觉理解目前仅支持 Windows");
    assert_eq!(message_of(capture_window(Some(Err("x".to_string())))), "x");
    assert_eq!(message_of(list_windows(Some(Err("denied".to_string())), 1)), "无法枚举 Windows 窗口：denied");
}

#[test]
fn windows_of_other_programs_are_listed() {
    let mut hidden = window(1, "hidden", 7);
    hidden.visible = false;
    let mut small = window(2, "small", 7);
    small.rect = rect(119, 100);
    let mut placeless = window(3, "placeless", 7);
    placeless.rect = None;
    let windows = vec![
        hidden,
        small,
        placeless,
        window(4, "  ", 7),
        window(5, "own", 9),
        window(6, "none", 0),
        window(18_446, " Editor ", 7),
        window(8, "Second", 8),
    ];
    let listed = list_windows(Some(Ok(windows)), 9).unwrap();
    assert_eq!(listed.len(), 2);
    assert_eq!(listed[0].id, "18446");
    assert_eq!(listed[0].title, "Editor");
    assert_eq!(listed[0].process_id, 7);
    assert_eq!(listed[0].process_name, "App");
    assert!(!listed[0].minimized);
    assert_eq!(listed[1].id, "8");
    assert_eq!(parse_window_id(&listed[0].id).unwrap(), 18_446);
    assert!(offer_window(window(1, "x", 9), 9).is_none());
}

#[test]
fn processes_are_named_after_their_program() {
    assert_eq!(process_name(42, None), "PID 42");
    let path = |full: &str, name: Option<&str>| {
        Some(ProgramPath { full: full.to_string(), file_name: name.map(str::to_string) })
    };
    assert_eq!(process_name(1, path("C:\\a.exe", Some("a.exe.exe"))), "a");
    assert_eq!(process_name(1, path("C:\\", None)), "C:\\");
    assert_eq!(process_name(1, path("x", Some(".exe"))), "");
    assert_eq!(process_name(1, path("x", Some("tool.EXE"))), "tool.EXE");
}

#[test]
fn window_identifiers_are_numbers() {
    assert_eq!(parse_window_id("+7").unwrap(), 7);
    for id in ["", "-1", "x", "1 ", "99999999999999999999999"] {
        assert_eq!(message_of(parse_window_id(id)), "窗口标识无效，请刷新窗口列表后重试");
    }
    assert_eq!(check_window(5, true).unwrap(), 5);
    assert_eq!(message_of(check_window(5, false)), "目标窗口已关闭，请刷新窗口列表后重试");
    assert_eq!(message_of(check_window(0, true)), "目标窗口已关闭，请刷新窗口列表后重试");
}

#[test]
fn the_window_asked_for_is_chosen_first() {
    let front = |handle: usize, process_id: u32, visible: bool| ForegroundWindow { handle, process_id, visible };
    let choose = |id: Option<&str>, front: ForegroundWindow| match choose_window(id, front, 1) {
        Ok(choice) => choice,
        Err(message) => panic!("{}", message),
    };
    assert!(matches!(choose(Some(" 12 "), front(3, 2, true)), WindowChoice::Named(12)));
    assert!(matches!(choose(Some("  "), front(3, 2, true)), WindowChoice::Foreground(3)));
    assert!(matches!(choose(None, front(3, 1, true)), WindowChoice::FirstListed));
    assert!(matches!(choose(None, front(3, 2, false)), WindowChoice::FirstListed));
    assert!(matches!(choose(None, front(0, 2, true)), WindowChoice::FirstListed));
    assert_eq!(
        message_of(choose_window(Some("no"), front(3, 2, true), 1)),
        "窗口标识无效，请刷新窗口列表后重试"
    );
    assert_eq!(
        message_of(first_listed(Ok(Vec::new()))),
        "没有找到可捕获的前台窗口，请先打开目标页面或在窗口列表中选择"
    );
    assert_eq!(message_of(first_listed(Err("e".to_string()))), "e");
    let listed = list_windows(Some(Ok(vec![window(77, "w", 2)])), 1);
    assert_eq!(first_listed(listed).unwrap(), 77);
    let broken = VisualWindowTarget {
        id: "?".to_string(),
        title: String::new(),
        process_id: 1,
        process_name: String::new(),
        minimized: false,
    };
    assert_eq!(message_of(first_listed(Ok(vec![broken]))), "窗口标识无效，请刷新窗口列表后重试");
}

#[test]
fn pictures_have_sensible_sizes() {
    assert_eq!(check_capture_size(rect(120, 80)).unwrap(), (120, 80));
    assert_eq!(message_of(check_capture_size(rect(120, 79))), "目标窗口尺寸无效");
    assert_eq!(message_of(check_capture_size(None)), "目标窗口尺寸无效");
    assert_eq!(message_of(check_capture_size(rect(12_001, 100))), "目标窗口尺寸过大，无法安全捕获");
    assert_eq!(message_of(check_capture_size(rect(8_000, 5_001))), "目标窗口像素过多，请缩小窗口后重试");
    assert_eq!(check_capture_size(rect(8_000, 5_000)).unwrap(), (8_000, 5_000));
    assert_eq!(valid_window_rect(rect(119, 500)), None);
    assert!(!WindowRect { left: i32::MIN, top: 0, right: 1, bottom: 0 }.countable());
    assert!(WindowRect { left: -5, top: 0, right: 1, bottom: 0 }.countable());
}

#[test]
fn hidden_windows_are_not_measured() {
    let mut hidden = window(77, "w", 2);
    hidden.visible = false;
    hidden.rect = Some(WindowRect { left: i32::MIN, top: 0, right: i32::MAX, bottom: 0 });
    let listed = list_windows(Some(Ok(vec![hidden, window(78, "w", 2)])), 1).unwrap();
    assert_eq!(listed.iter().map(|target| target.id.as_str()).collect::<Vec<&str>>(), vec!["78"]);
}

#[test]
fn pixels_are_taken_step_by_step() {
    let failure = |step: CaptureStep, event: StepEvent| match next_capture_step(step, event) {
        CaptureStep::Failed(message) => message,
        _ => panic!("a failure was expected"),
    };
    let mut step = CaptureStep::OpenWindow;
    for _ in 0..4 {
        step = next_capture_step(step, StepEvent::Checked(true));
    }
    assert!(matches!(step, CaptureStep::PrintWindow));
    let copied = next_capture_step(CaptureStep::PrintWindow, StepEvent::Checked(false));
    assert!(matches!(copied, CaptureStep::CopyScreen));
    assert!(matches!(next_capture_step(copied, StepEvent::Done), CaptureStep::ReadPixels));
    let step = next_capture_step(step, StepEvent::Checked(true));
    assert!(matches!(step, CaptureStep::ReadPixels));
    assert!(matches!(next_capture_step(step, StepEvent::Checked(true)), CaptureStep::Done));
    assert_eq!(failure(CaptureStep::OpenWindow, StepEvent::Checked(false)), "无法读取目标窗口画面");
    assert_eq!(failure(CaptureStep::CreateBuffer, StepEvent::Checked(false)), "无法创建截图缓冲区");
    assert_eq!(failure(CaptureStep::CreateBitmap, StepEvent::Checked(false)), "无法创建截图位图");
    assert_eq!(failure(CaptureStep::BindBitmap, StepEvent::Checked(false)), "无法绑定截图位图");
    assert_eq!(failure(CaptureStep::CopyScreen, StepEvent::Failed("e".to_string())), "窗口截图失败：e");
    assert_eq!(failure(CaptureStep::ReadPixels, StepEvent::Checked(false)), "无法读取截图像素");
}

#[test]
fn pixels_become_opaque_and_change_their_order() {
    assert_eq!(to_opaque_rgba(vec![1, 2, 3, 4, 5, 6, 7, 8]), vec![3, 2, 1, 255, 7, 6, 5, 255]);
    assert_eq!(to_opaque_rgba(vec![1, 2, 3, 4, 5, 6]), vec![3, 2, 1, 255, 5, 6]);
    assert_eq!(to_opaque_rgba(Vec::new()), Vec::<u8>::new());
}

#[test]
fn files_are_written_in_base64() {
    for (bytes, text) in [
        (&b""[..], ""),
        (&b"f"[..], "Zg=="),
        (&b"fo"[..], "Zm8="),
        (&b"foo"[..], "Zm9v"),
        (&b"foobar"[..], "Zm9vYmFy"),
        (&[255, 239, 190][..], "/+++"),
    ] {
        assert_eq!(image_data_url(bytes), format!("data:image/png;base64,{text}"));
    }
    assert_eq!(
        parse_image_data_url(&image_data_url(b"foo")).unwrap(),
        ("image/png".to_string(), "Zm9v".to_string())
    );
}

fn decoded(url: &str) -> image::RgbaImage {
    let (_, data) = parse_image_data_url(url).unwrap();
    let file = base64::Engine::decode(&base64::engine::general_purpose::STANDARD, data).unwrap();
    assert_eq!(&file[..8], &[137, 80, 78, 71, 13, 10, 26, 10]);
    image::load_from_memory(&file).unwrap().into_rgba8()
}

#[test]
fn small_pictures_are_kept() {
    let pixels: Vec<u8> = (0..3 * 2 * 4).map(|value| value as u8).collect();
    let picture = match encode_picture(3, 2, pixels.clone()) {
        Ok(picture) => picture,
        Err(message) => panic!("{}", message),
    };
    assert_eq!((picture.width, picture.height), (3, 2));
    let read = decoded(&picture.image_data_url);
    assert_eq!(read.dimensions(), (3, 2));
    assert_eq!(read.into_raw(), pixels);
    assert_eq!(message_of(encode_picture(3, 2, vec![0; 23])), "无法创建截图图像");
}

#[test]
fn large_pictures_are_made_smaller() {
    for (width, height, expected) in [(3_600, 10, (1_800, 5)), (1_801, 1, (1_800, 1)), (5, 4_001, (2, 1_800))] {
        let picture = match encode_picture(width, height, vec![200; (width * height * 4) as usize]) {
            Ok(picture) => picture,
            Err(message) => panic!("{}", message),
        };
        assert_eq!((picture.width, picture.height), expected);
        assert_eq!(decoded(&picture.image_data_url).dimensions(), expected);
    }
}

#[test]
fn colours_survive_being_made_smaller() {
    let colour = [10_u8, 200, 90, 255];
    let pixels: Vec<u8> = colour.iter().copied().cycle().take(2_000 * 3 * 4).collect();
    let picture = match encode_picture(2_000, 3, pixels) {
        Ok(picture) => picture,
        Err(message) => panic!("{}", message),
    };
    for pixel in decoded(&picture.image_data_url).pixels() {
        for channel in 0..4 {
            assert!(pixel.0[channel].abs_diff(colour[channel]) <= 1);
        }
    }
}

#[test]
fn encoding_failures_are_explained() {
    assert_eq!(message_of(picture_of(1, 1, Err("e".to_string()))), "截图编码失败：e");
    let picture = match picture_of(4, 5, Ok(b"foo".to_vec())) {
        Ok(picture) => picture,
        Err(message) => panic!("{}", message),
    };
    let captured = captured_window(9, "  t ", "p".to_string(), picture);
    assert_eq!(captured.window_id, "9");
    assert_eq!(captured.window_title, "t");
    assert_eq!(captured.process_name, "p");
    assert_eq!((captured.width, captured.height), (4, 5));
    assert_eq!(captured.image_data_url, "data:image/png;base64,Zm9v");
}
