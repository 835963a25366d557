//! Windows on the screen: which can be looked at, and how a picture of one is made.
//!
//! The windows themselves are asked from outside; what they say comes in as plain values.

use vstd::prelude::*;

use crate::downloads::{EventView, StepEvent};
use crate::model_runtime::{image_url, ImageUrl};
use crate::numbers::{decimal, decimal_text, lemma_number_round_trip, parse_number, parsed_number};
use crate::ordering::reversed;
use crate::speech_model::str_view;
use crate::text::{
    chars_of, copied, is_blank, is_white, stands_at, string_of, trim, trimmed,
};
use crate::transcript::option_view;

verus! {

/// The longest edge of a picture that is handed on, in pixels.
pub const MAX_CAPTURE_EDGE: u32 = 1800;

/// A window that can be looked at.
#[derive(Clone, Debug)]
pub struct VisualWindowTarget {
    pub id: String,
    pub title: String,
    pub process_id: u32,
    pub process_name: String,
    pub minimized: bool,
}

/// A picture of a window.
#[derive(Clone, Debug)]
pub struct CapturedWindow {
    pub window_id: String,
    pub window_title: String,
    pub process_name: String,
    pub width: u32,
    pub height: u32,
    pub image_data_url: String,
}

/// Where a window stands on the screen.
#[derive(Clone, Copy, Debug, PartialEq, Eq, Structural)]
pub struct WindowRect {
    pub left: i32,
    pub top: i32,
    pub right: i32,
    pub bottom: i32,
}

impl WindowRect {
    /// The width and the height can be counted.
    pub open spec fn is_countable(&self) -> bool {
        i32::MIN <= self.right - self.left <= i32::MAX && i32::MIN <= self.bottom - self.top <= i32::MAX
    }

    /// The window is large enough to be looked at: 120 pixels by 80.
    pub open spec fn is_large_enough(&self) -> bool {
        self.right - self.left >= 120 && self.bottom - self.top >= 80
    }

    /// Whether the width and the height can be counted.
    pub fn countable(&self) -> (yes: bool)
        ensures
            yes == self.is_countable(),
    {
        let width: i64 = self.right as i64 - self.left as i64;
        let height: i64 = self.bottom as i64 - self.top as i64;
        i32::MIN as i64 <= width && width <= i32::MAX as i64 && i32::MIN as i64 <= height && height
            <= i32::MAX as i64
    }
}

/// The place of a window that is large enough to be looked at.
pub open spec fn usable_rect(rect: Option<WindowRect>) -> Option<WindowRect> {
    match rect {
        Some(rect) if rect.is_large_enough() => Some(rect),
        _ => None,
    }
}

/// The place of a window, where it is known and large enough to be looked at.
pub fn valid_window_rect(rect: Option<WindowRect>) -> (usable: Option<WindowRect>)
    requires
        rect is Some ==> rect->0.is_countable(),
    ensures
        usable == usable_rect(rect),
{
    match rect {
        Some(rect) => {
            let width: i32 = rect.right - rect.left;
            let height: i32 = rect.bottom - rect.top;
            if width >= 120 && height >= 80 {
                Some(rect)
            } else {
                None
            }
        },
        None => None,
    }
}

/// Where the program of a process is: its path, and the last part of it.
pub struct ProgramPath {
    pub full: String,
    pub file_name: Option<String>,
}

/// `s` without `suffix` at its end, however often it stands there.
pub open spec fn without_suffixes(s: Seq<char>, suffix: Seq<char>) -> Seq<char>
    decreases s.len(),
{
    if suffix.len() > 0 && suffix.is_suffix_of(s) {
        without_suffixes(s.take(s.len() - suffix.len()), suffix)
    } else {
        s
    }
}

/// The name of a process with the program `program`; its number where that is not known.
pub open spec fn shown_process(process_id: u32, program: Option<(Seq<char>, Option<Seq<char>>)>) -> Seq<char> {
    match program {
        Some((_, Some(file_name))) => without_suffixes(file_name, ".exe"@),
        Some((full, None)) => without_suffixes(full, ".exe"@),
        None => "PID "@ + decimal(process_id as nat),
    }
}

/// The parts of a program path, as sequences.
pub open spec fn program_view(program: Option<ProgramPath>) -> Option<(Seq<char>, Option<Seq<char>>)> {
    match program {
        Some(program) => Some((program.full@, option_view(program.file_name))),
        None => None,
    }
}

/// `chars` without `suffix` at their end, however often it stands there.
fn cut_suffixes(chars: Vec<char>, suffix: &Vec<char>) -> (kept: Vec<char>)
    requires
        suffix@.len() > 0,
    ensures
        kept@ == without_suffixes(chars@, suffix@),
{
    let mut end: usize = chars.len();
    assert(chars@.take(end as int) == chars@);
    while end >= suffix.len() && stands_at(suffix, &chars, end - suffix.len())
        invariant
            suffix@.len() > 0,
            end <= chars@.len(),
            without_suffixes(chars@, suffix@) == without_suffixes(chars@.take(end as int), suffix@),
        decreases end,
    {
        proof {
            let s = chars@.take(end as int);
            let at = end - suffix@.len();
            assert(s.subrange(at, s.len() as int) =~= chars@.subrange(at, at + suffix@.len()));
            assert(suffix@.is_suffix_of(s));
            assert(s.take(at) =~= chars@.take(at));
        }
        end = end - suffix.len();
    }
    proof {
        let s = chars@.take(end as int);
        if suffix@.is_suffix_of(s) {
            let at = end - suffix@.len();
            assert(s.subrange(at, s.len() as int) =~= chars@.subrange(at, at + suffix@.len()));
            assert(crate::text::occurs_at(suffix@, chars@, at));
        }
        assert(chars@.subrange(0, end as int) =~= s);
    }
    copied(&chars, 0, end)
}

/// The name of a process, after its program.
pub fn process_name(process_id: u32, program: Option<ProgramPath>) -> (name: String)
    ensures
        name@ == shown_process(process_id, program_view(program)),
{
    match program {
        Some(program) => {
            let path = match program.file_name {
                Some(file_name) => file_name,
                None => program.full,
            };
            proof {
                reveal_strlit(".exe");
            }
            string_of(&cut_suffixes(chars_of(path.as_str()), &chars_of(".exe")))
        },
        None => "PID ".to_string().concat(decimal_text(process_id as u64).as_str()),
    }
}

/// What a window says of itself.
pub struct WindowInfo {
    pub handle: usize,
    pub visible: bool,
    pub rect: Option<WindowRect>,
    pub title: String,
    pub process_id: u32,
    pub program: Option<ProgramPath>,
    pub minimized: bool,
}

/// A window is offered: it is seen, large enough, has a title, and belongs to another program.
pub open spec fn is_offered(window: WindowInfo, current_process_id: u32) -> bool {
    window.visible && usable_rect(window.rect) is Some && !is_blank(window.title@) && window.process_id != 0
        && window.process_id != current_process_id
}

impl VisualWindowTarget {
    /// This offers `window`.
    pub open spec fn offers(&self, window: WindowInfo) -> bool {
        &&& self.id@ == decimal(window.handle as nat)
        &&& self.title@ == trim(window.title@)
        &&& self.process_id == window.process_id
        &&& self.process_name@ == shown_process(window.process_id, program_view(window.program))
        &&& self.minimized == window.minimized
    }
}

/// The windows that are offered.
pub open spec fn offered(windows: Seq<WindowInfo>, current_process_id: u32) -> Seq<WindowInfo> {
    windows.filter(|window: WindowInfo| is_offered(window, current_process_id))
}

/// The sides of a window can be counted, where it is seen.
pub open spec fn can_measure(window: WindowInfo) -> bool {
    window.visible && window.rect is Some ==> window.rect->0.is_countable()
}

/// The sides of all windows that are seen can be counted.
pub open spec fn all_countable(windows: Seq<WindowInfo>) -> bool {
    forall|i: int| 0 <= i < windows.len() ==> can_measure(#[trigger] windows[i])
}

/// Offers a window, where it can be looked at.
pub fn offer_window(window: WindowInfo, current_process_id: u32) -> (target: Option<VisualWindowTarget>)
    requires
        can_measure(window),
    ensures
        if is_offered(window, current_process_id) {
            target is Some && target->0.offers(window)
        } else {
            target is None
        },
{
    if !window.visible || valid_window_rect(window.rect).is_none() {
        return None;
    }
    let title = trimmed(window.title.as_str());
    if title.as_str().is_empty() {
        return None;
    }
    if window.process_id == 0 || window.process_id == current_process_id {
        return None;
    }
    Some(
        VisualWindowTarget {
            id: decimal_text(window.handle as u64),
            title,
            process_id: window.process_id,
            process_name: process_name(window.process_id, window.program),
            minimized: window.minimized,
        },
    )
}

/// Lists the windows that can be looked at, in the order in which the system names them.
/// `enumeration` is what the system says; there is none where the system is not supported.
pub fn list_windows(enumeration: Option<Result<Vec<WindowInfo>, String>>, current_process_id: u32) -> (listed: Result<
    Vec<VisualWindowTarget>,
    String,
>)
    requires
        enumeration is Some && enumeration->0 is Ok ==> all_countable(enumeration->0->Ok_0@),
    ensures
        match enumeration {
            None => listed is Err && listed->Err_0@ == "窗口视觉理解目前仅支持 Windows"@,
            Some(Err(error)) => listed is Err && listed->Err_0@ == "无法枚举 Windows 窗口："@ + error@,
            Some(Ok(windows)) => {
                &&& listed is Ok
                &&& listed->Ok_0@.len() == offered(windows@, current_process_id).len()
                &&& forall|i: int|
                    0 <= i < listed->Ok_0@.len() ==> (#[trigger] listed->Ok_0@[i]).offers(
                        offered(windows@, current_process_id)[i],
                    )
            },
        },
{
    let windows = match enumeration {
        Some(Ok(windows)) => windows,
        Some(Err(error)) => {
            return Err("无法枚举 Windows 窗口：".to_string().concat(error.as_str()));
        },
        None => {
            return Err("窗口视觉理解目前仅支持 Windows".to_string());
        },
    };
    let ghost all = windows@;
    let ghost keep = |window: WindowInfo| is_offered(window, current_process_id);
    let mut reversed = reversed(windows);
    let mut listed: Vec<VisualWindowTarget> = Vec::new();
    let ghost mut seen: int = 0;
    while reversed.len() > 0
        invariant
            seen + reversed@.len() == all.len(),
            0 <= seen,
            all_countable(all),
            keep == (|window: WindowInfo| is_offered(window, current_process_id)),
            forall|i: int| 0 <= i < reversed@.len() ==> #[trigger] reversed@[i] == all[all.len() - 1 - i],
            listed@.len() == all.take(seen).filter(keep).len(),
            forall|i: int|
                0 <= i < listed@.len() ==> (#[trigger] listed@[i]).offers(all.take(seen).filter(keep)[i]),
        decreases reversed@.len(),
    {
        proof {
            reveal(Seq::filter);
            assert(all.take(seen + 1).drop_last() == all.take(seen));
        }
        match reversed.pop() {
            Some(window) => {
                assert(window == all[seen]);
                match offer_window(window, current_process_id) {
                    Some(target) => {
                        listed.push(target);
                    },
                    None => {},
                }
            },
            None => {},
        }
        proof {
            seen = seen + 1;
        }
    }
    assert(all.take(seen) == all);
    Ok(listed)
}

/// Reads the identifier of a window.
pub fn parse_window_id(window_id: &str) -> (handle: Result<usize, String>)
    ensures
        match parsed_number(window_id@) {
            Some(number) if number <= usize::MAX => handle == Ok::<usize, String>(number as usize),
            _ => handle is Err && handle->Err_0@ == "窗口标识无效，请刷新窗口列表后重试"@,
        },
{
    match parse_number(window_id) {
        Some(handle) => Ok(handle),
        None => Err("窗口标识无效，请刷新窗口列表后重试".to_string()),
    }
}

/// Checks that a window is still there. `present` is what the system says of the handle.
pub fn check_window(handle: usize, present: bool) -> (checked: Result<usize, String>)
    ensures
        if handle != 0 && present {
            checked == Ok::<usize, String>(handle)
        } else {
            checked is Err && checked->Err_0@ == "目标窗口已关闭，请刷新窗口列表后重试"@
        },
{
    if handle == 0 || !present {
        return Err("目标窗口已关闭，请刷新窗口列表后重试".to_string());
    }
    Ok(handle)
}

/// A window that is listed is found again by its identifier.
pub proof fn law_listed_windows_are_found_again(target: VisualWindowTarget, window: WindowInfo)
    requires
        target.offers(window),
    ensures
        parsed_number(target.id@) == Some(window.handle as nat),
{
    lemma_number_round_trip(window.handle as nat);
}

/// The window in front of the others, as the system names it.
pub struct ForegroundWindow {
    pub handle: usize,
    pub process_id: u32,
    pub visible: bool,
}

/// Which window is to be looked at.
pub enum WindowChoice {
    /// The window with this handle, where it is still there.
    Named(usize),
    /// The window in front.
    Foreground(usize),
    /// The first window that is listed.
    FirstListed,
}

/// The window in front is one of another program, and can be seen.
pub open spec fn is_lookable(foreground: ForegroundWindow, current_process_id: u32) -> bool {
    foreground.handle != 0 && foreground.process_id != current_process_id && foreground.visible
}

/// Decides which window is to be looked at: the one that was asked for, or else the one in front,
/// or else the first that is listed.
pub fn choose_window(window_id: Option<&str>, foreground: ForegroundWindow, current_process_id: u32) -> (choice: Result<
    WindowChoice,
    String,
>)
    ensures
        match str_view(window_id) {
            Some(id) if !is_blank(id) => match parsed_number(trim(id)) {
                Some(number) if number <= usize::MAX => choice == Ok::<WindowChoice, String>(
                    WindowChoice::Named(number as usize),
                ),
                _ => choice is Err && choice->Err_0@ == "窗口标识无效，请刷新窗口列表后重试"@,
            },
            _ => choice == Ok::<WindowChoice, String>(
                if is_lookable(foreground, current_process_id) {
                    WindowChoice::Foreground(foreground.handle)
                } else {
                    WindowChoice::FirstListed
                },
            ),
        },
{
    match window_id {
        Some(id) => {
            let id = trimmed(id);
            if !id.as_str().is_empty() {
                return match parse_window_id(id.as_str()) {
                    Ok(handle) => Ok(WindowChoice::Named(handle)),
                    Err(message) => Err(message),
                };
            }
        },
        None => {},
    }
    if foreground.handle != 0 && foreground.process_id != current_process_id && foreground.visible {
        Ok(WindowChoice::Foreground(foreground.handle))
    } else {
        Ok(WindowChoice::FirstListed)
    }
}

/// The handle of the first window that is listed.
pub fn first_listed(listed: Result<Vec<VisualWindowTarget>, String>) -> (handle: Result<usize, String>)
    ensures
        match listed {
            Err(error) => handle is Err && handle->Err_0@ == error@,
            Ok(windows) => if windows@.len() == 0 {
                handle is Err && handle->Err_0@
                    == "没有找到可捕获的前台窗口，请先打开目标页面或在窗口列表中选择"@
            } else {
                match parsed_number(windows@[0].id@) {
                    Some(number) if number <= usize::MAX => handle == Ok::<usize, String>(number as usize),
                    _ => handle is Err && handle->Err_0@ == "窗口标识无效，请刷新窗口列表后重试"@,
                }
            },
        },
{
    match listed {
        Ok(windows) => {
            if windows.len() == 0 {
                return Err("没有找到可捕获的前台窗口，请先打开目标页面或在窗口列表中选择".to_string());
            }
            parse_window_id(windows[0].id.as_str())
        },
        Err(error) => Err(error),
    }
}

/// The size of the picture of a window, or what is said when none can be made.
pub open spec fn capture_size(rect: Option<WindowRect>) -> Result<(int, int), Seq<char>> {
    match usable_rect(rect) {
        None => Err("目标窗口尺寸无效"@),
        Some(rect) => {
            let width = rect.right - rect.left;
            let height = rect.bottom - rect.top;
            if width > 12_000 || height > 12_000 {
                Err("目标窗口尺寸过大，无法安全捕获"@)
            } else if width * height > 40_000_000 {
                Err("目标窗口像素过多，请缩小窗口后重试"@)
            } else {
                Ok((width, height))
            }
        },
    }
}

/// Checks the place of a window and gives the size of its picture.
pub fn check_capture_size(rect: Option<WindowRect>) -> (size: Result<(u32, u32), String>)
    requires
        rect is Some ==> rect->0.is_countable(),
    ensures
        match capture_size(rect) {
            Ok((width, height)) => size == Ok::<(u32, u32), String>((width as u32, height as u32)),
            Err(message) => size is Err && size->Err_0@ == message,
        },
{
    match valid_window_rect(rect) {
        Some(rect) => {
            let width: i32 = rect.right - rect.left;
            let height: i32 = rect.bottom - rect.top;
            if width > 12_000 || height > 12_000 {
                return Err("目标窗口尺寸过大，无法安全捕获".to_string());
            }
            assert(width * height <= 144_000_000) by (nonlinear_arith)
                requires
                    0 <= width <= 12_000,
                    0 <= height <= 12_000,
            ;
            assert(0 <= width * height) by (nonlinear_arith)
                requires
                    0 <= width,
                    0 <= height,
            ;
            if (width as i64) * (height as i64) > 40_000_000 {
                return Err("目标窗口像素过多，请缩小窗口后重试".to_string());
            }
            Ok((width as u32, height as u32))
        },
        None => Err("目标窗口尺寸无效".to_string()),
    }
}

/// A picture that is made is at least 120 pixels by 80, at most 12000 either way, and holds at most
/// forty million pixels.
pub proof fn law_pictures_are_of_sensible_size(rect: Option<WindowRect>)
    ensures
        capture_size(rect) matches Ok((width, height)) ==> 120 <= width <= 12_000 && 80 <= height <= 12_000
            && width * height <= 40_000_000,
{
}

/// A step of taking the pixels of a window.
pub enum CaptureStep {
    /// Open the window for reading.
    OpenWindow,
    CreateBuffer,
    CreateBitmap,
    BindBitmap,
    /// Let the window draw itself.
    PrintWindow,
    /// Copy what is on the screen.
    CopyScreen,
    ReadPixels,
    Done,
    Failed(String),
}

/// A step of taking the pixels of a window, as sequences.
pub enum CaptureView {
    OpenWindow,
    CreateBuffer,
    CreateBitmap,
    BindBitmap,
    PrintWindow,
    CopyScreen,
    ReadPixels,
    Done,
    Failed(Seq<char>),
}

impl View for CaptureStep {
    type V = CaptureView;

    open spec fn view(&self) -> CaptureView {
        match self {
            CaptureStep::OpenWindow => CaptureView::OpenWindow,
            CaptureStep::CreateBuffer => CaptureView::CreateBuffer,
            CaptureStep::CreateBitmap => CaptureView::CreateBitmap,
            CaptureStep::BindBitmap => CaptureView::BindBitmap,
            CaptureStep::PrintWindow => CaptureView::PrintWindow,
            CaptureStep::CopyScreen => CaptureView::CopyScreen,
            CaptureStep::ReadPixels => CaptureView::ReadPixels,
            CaptureStep::Done => CaptureView::Done,
            CaptureStep::Failed(message) => CaptureView::Failed(message@),
        }
    }
}

/// The step that follows `step` when `event` came of it: `Checked` says whether it worked. A window
/// that does not draw itself is copied from the screen. An event that cannot come of the step
/// leaves it as it is.
pub open spec fn next_capture(step: CaptureView, event: EventView) -> CaptureView {
    match (step, event) {
        (CaptureView::OpenWindow, EventView::Checked(worked)) => if worked {
            CaptureView::CreateBuffer
        } else {
            CaptureView::Failed("无法读取目标窗口画面"@)
        },
        (CaptureView::CreateBuffer, EventView::Checked(worked)) => if worked {
            CaptureView::CreateBitmap
        } else {
            CaptureView::Failed("无法创建截图缓冲区"@)
        },
        (CaptureView::CreateBitmap, EventView::Checked(worked)) => if worked {
            CaptureView::BindBitmap
        } else {
            CaptureView::Failed("无法创建截图位图"@)
        },
        (CaptureView::BindBitmap, EventView::Checked(worked)) => if worked {
            CaptureView::PrintWindow
        } else {
            CaptureView::Failed("无法绑定截图位图"@)
        },
        (CaptureView::PrintWindow, EventView::Checked(worked)) => if worked {
            CaptureView::ReadPixels
        } else {
            CaptureView::CopyScreen
        },
        (CaptureView::CopyScreen, EventView::Done) => CaptureView::ReadPixels,
        (CaptureView::CopyScreen, EventView::Failed(error)) => CaptureView::Failed("窗口截图失败："@ + error),
        (CaptureView::ReadPixels, EventView::Checked(worked)) => if worked {
            CaptureView::Done
        } else {
            CaptureView::Failed("无法读取截图像素"@)
        },
        _ => step,
    }
}

/// Goes on with `next` where a step worked, and fails with `message` where it did not.
fn worked_or(worked: bool, next: CaptureStep, message: &str) -> (step: CaptureStep)
    ensures
        step@ == (if worked {
            next@
        } else {
            CaptureView::Failed(message@)
        }),
{
    if worked {
        next
    } else {
        CaptureStep::Failed(message.to_string())
    }
}

/// Says which step of taking the pixels of a window follows `step` when `event` came of it.
pub fn next_capture_step(step: CaptureStep, event: StepEvent) -> (next: CaptureStep)
    ensures
        next@ == next_capture(step@, event@),
{
    match (step, event) {
        (CaptureStep::OpenWindow, StepEvent::Checked(worked)) => worked_or(
            worked,
            CaptureStep::CreateBuffer,
            "无法读取目标窗口画面",
        ),
        (CaptureStep::CreateBuffer, StepEvent::Checked(worked)) => worked_or(
            worked,
            CaptureStep::CreateBitmap,
            "无法创建截图缓冲区",
        ),
        (CaptureStep::CreateBitmap, StepEvent::Checked(worked)) => worked_or(
            worked,
            CaptureStep::BindBitmap,
            "无法创建截图位图",
        ),
        (CaptureStep::BindBitmap, StepEvent::Checked(worked)) => worked_or(
            worked,
            CaptureStep::PrintWindow,
            "无法绑定截图位图",
        ),
        (CaptureStep::PrintWindow, StepEvent::Checked(worked)) => if worked {
            CaptureStep::ReadPixels
        } else {
            CaptureStep::CopyScreen
        },
        (CaptureStep::CopyScreen, StepEvent::Done) => CaptureStep::ReadPixels,
        (CaptureStep::CopyScreen, StepEvent::Failed(error)) => CaptureStep::Failed(
            "窗口截图失败：".to_string().concat(error.as_str()),
        ),
        (CaptureStep::ReadPixels, StepEvent::Checked(worked)) => worked_or(
            worked,
            CaptureStep::Done,
            "无法读取截图像素",
        ),
        (step, _) => step,
    }
}

/// Pixels in the order blue, green, red and alpha, as opaque pixels in the order red, green, blue
/// and alpha. Bytes behind the last whole pixel stay.
pub open spec fn opaque_rgba(bgra: Seq<u8>) -> Seq<u8> {
    Seq::new(
        bgra.len(),
        |i: int|
            if i - i % 4 + 4 > bgra.len() {
                bgra[i]
            } else if i % 4 == 0 {
                bgra[i + 2]
            } else if i % 4 == 1 {
                bgra[i]
            } else if i % 4 == 2 {
                bgra[i - 2]
            } else {
                255
            },
    )
}

/// Puts the pixels that a window gave into the order red, green and blue, and makes them opaque.
pub fn to_opaque_rgba(bgra: Vec<u8>) -> (rgba: Vec<u8>)
    ensures
        rgba@ == opaque_rgba(bgra@),
{
    let mut rgba: Vec<u8> = Vec::new();
    let mut i: usize = 0;
    while bgra.len() - i >= 4
        invariant
            i <= bgra@.len(),
            i % 4 == 0,
            rgba@ == opaque_rgba(bgra@).take(i as int),
        decreases bgra@.len() - i,
    {
        rgba.push(bgra[i + 2]);
        rgba.push(bgra[i + 1]);
        rgba.push(bgra[i]);
        rgba.push(255);
        assert(rgba@ =~= opaque_rgba(bgra@).take(i + 4));
        i += 4;
    }
    while i < bgra.len()
        invariant
            i <= bgra@.len(),
            i - i % 4 + 4 > bgra@.len(),
            rgba@ == opaque_rgba(bgra@).take(i as int),
        decreases bgra@.len() - i,
    {
        assert(i - i % 4 + 4 > bgra@.len());
        rgba.push(bgra[i]);
        assert(rgba@ =~= opaque_rgba(bgra@).take(i + 1));
        i += 1;
    }
    assert(opaque_rgba(bgra@).take(i as int) =~= opaque_rgba(bgra@));
    rgba
}

/// Whole pixels come out opaque, with red and blue exchanged and green kept.
pub proof fn law_pixels_become_opaque(bgra: Seq<u8>, pixel: int)
    requires
        0 <= pixel,
        pixel * 4 + 4 <= bgra.len(),
    ensures
        opaque_rgba(bgra).len() == bgra.len(),
        opaque_rgba(bgra)[pixel * 4] == bgra[pixel * 4 + 2],
        opaque_rgba(bgra)[pixel * 4 + 1] == bgra[pixel * 4 + 1],
        opaque_rgba(bgra)[pixel * 4 + 2] == bgra[pixel * 4],
        opaque_rgba(bgra)[pixel * 4 + 3] == 255,
{
}

/// `scaled` is the edge that `edge` becomes when an edge of `longest` becomes `limit`: the nearest
/// number of pixels, and at least one.
pub open spec fn is_scaled_edge(scaled: u32, edge: u32, longest: u32, limit: u32) -> bool {
    ||| scaled == 1 && 2 * edge * limit <= longest
    ||| scaled >= 1 && -(longest as int) <= 2 * (scaled * longest - edge * limit) <= longest
}

/// The longer of two edges.
pub open spec fn longer(width: u32, height: u32) -> u32 {
    if width < height {
        height
    } else {
        width
    }
}

/// How many bytes a picture holds.
pub open spec fn picture_bytes(width: u32, height: u32) -> int {
    width as int * height as int * 4
}

/// The image crate's `DynamicImage::resize` with the Lanczos filter can make `shrunk` out of
/// `pixels`, on one machine or another.
pub uninterp spec fn can_shrink_to(width: u32, height: u32, pixels: Seq<u8>, limit: u32, shrunk: Seq<u8>) -> bool;

/// Calls the image crate's `DynamicImage::resize` with the Lanczos filter: the picture, made as
/// large as fits into a square of `limit`, with its proportions kept. The pixels of the new picture
/// are some that `can_shrink_to` holds of; which of them rests on the machine's floating-point sine
/// and is not stated.
#[verifier::external_body]
fn shrink(width: u32, height: u32, pixels: Vec<u8>, limit: u32) -> (shrunk: (u32, u32, Vec<u8>))
    requires
        0 < width,
        0 < height,
        0 < limit <= 4096,
        longer(width, height) > limit,
        pixels@.len() >= picture_bytes(width, height),
    ensures
        is_scaled_edge(shrunk.0, width, longer(width, height), limit),
        is_scaled_edge(shrunk.1, height, longer(width, height), limit),
        shrunk.2@.len() == picture_bytes(shrunk.0, shrunk.1),
        can_shrink_to(width, height, pixels@, limit, shrunk.2@),
{
    let picture = image::DynamicImage::ImageRgba8(image::RgbaImage::from_raw(width, height, pixels).unwrap());
    let shrunk = picture.resize(limit, limit, image::imageops::FilterType::Lanczos3);
    (shrunk.width(), shrunk.height(), shrunk.into_rgba8().into_raw())
}

/// The picture as a PNG file, or an error, as the image crate's `DynamicImage::write_to` gives it.
pub uninterp spec fn png_file(width: u32, height: u32, pixels: Seq<u8>) -> Result<Seq<u8>, Seq<char>>;

/// Calls the image crate's `DynamicImage::write_to` for PNG. What it writes is named `png_file`; a
/// file starts with the signature of PNG files, which is eight bytes long.
#[verifier::external_body]
fn encode_png(width: u32, height: u32, pixels: Vec<u8>) -> (file: Result<Vec<u8>, String>)
    requires
        pixels@.len() == picture_bytes(width, height),
    ensures
        match file {
            Ok(file) => png_file(width, height, pixels@) == Ok::<Seq<u8>, Seq<char>>(file@) && file@.len() >= 8,
            Err(error) => png_file(width, height, pixels@) == Err::<Seq<u8>, Seq<char>>(error@),
        },
{
    let picture = image::DynamicImage::ImageRgba8(image::RgbaImage::from_raw(width, height, pixels).unwrap());
    let mut file = std::io::Cursor::new(Vec::new());
    match picture.write_to(&mut file, image::ImageFormat::Png) {
        Ok(()) => Ok(file.into_inner()),
        Err(error) => Err(error.to_string()),
    }
}

/// The character that stands for six bits.
pub open spec fn base64_char(bits: int) -> char {
    if bits < 26 {
        ('A' as int + bits) as char
    } else if bits < 52 {
        ('a' as int + bits - 26) as char
    } else if bits < 62 {
        ('0' as int + bits - 52) as char
    } else if bits == 62 {
        '+'
    } else {
        '/'
    }
}

/// The byte at `i`, or zero behind the end.
pub open spec fn byte_at(bytes: Seq<u8>, i: int) -> int {
    if i < bytes.len() {
        bytes[i] as int
    } else {
        0
    }
}

/// Bytes in base64, with padding: each three bytes are four characters of six bits, and `=` stands
/// where no byte reaches.
pub open spec fn base64(bytes: Seq<u8>) -> Seq<char> {
    Seq::new(
        (bytes.len() + 2) / 3 * 4,
        |i: int|
            {
                let first = i / 4 * 3;
                let bits = byte_at(bytes, first) * 65_536 + byte_at(bytes, first + 1) * 256 + byte_at(
                    bytes,
                    first + 2,
                );
                if i % 4 == 0 {
                    base64_char(bits / 262_144)
                } else if i % 4 == 1 {
                    base64_char(bits / 4_096 % 64)
                } else if first + i % 4 > bytes.len() {
                    '='
                } else if i % 4 == 2 {
                    base64_char(bits / 64 % 64)
                } else {
                    base64_char(bits % 64)
                }
            },
    )
}

/// Calls the base64 crate's `Engine::encode` of the standard engine: the standard alphabet, with
/// padding.
#[verifier::external_body]
fn base64_text(bytes: &[u8]) -> (text: String)
    ensures
        text@ == base64(bytes@),
{
    base64::Engine::encode(&base64::engine::general_purpose::STANDARD, bytes)
}

/// A PNG file as the address of an image.
pub open spec fn png_url(file: Seq<u8>) -> Seq<char> {
    "data:image/png;base64,"@ + base64(file)
}

/// Writes a PNG file as the address of an image.
pub fn image_data_url(file: &[u8]) -> (url: String)
    ensures
        url@ == png_url(file@),
{
    "data:image/png;base64,".to_string().concat(base64_text(file).as_str())
}

/// The address of a PNG file is read back as an image of that type, with the same data.
pub proof fn law_image_addresses_are_read_back(file: Seq<u8>)
    requires
        file.len() > 0,
    ensures
        image_url(png_url(file)) == (ImageUrl::Image { content_type: "image/png"@, base64: base64(file) }),
{
    reveal_strlit("data:image/png;base64,");
    reveal_strlit("data:");
    reveal_strlit(";base64");
    reveal_strlit("image/");
    reveal_strlit("image/png");
    let url = png_url(file);
    let head = "data:image/png;base64,"@;
    let data = base64(file);
    assert(data.len() >= 4);
    lemma_base64_is_not_white(file, 0);
    lemma_base64_is_not_white(file, data.len() - 1);
    assert(url[0] == 'd');
    assert(url.last() == data.last());
    crate::text::lemma_trim_fixed(url);
    crate::text::lemma_trim_fixed(data);
    crate::text::lemma_index_of_char(url, ',', 21);
    assert(url.take(21) =~= head.take(21));
    assert(url.skip(22) =~= data);
    let metadata = url.take(21);
    assert("data:"@.is_prefix_of(metadata)) by {
        assert(metadata.take(5) =~= "data:"@);
        assert("data:"@ =~= metadata.subrange(0, 5));
    }
    let named = metadata.skip(5);
    assert(named =~= head.subrange(5, 21));
    assert(";base64"@.is_suffix_of(named)) by {
        assert(";base64"@ =~= named.subrange(9, 16));
    }
    let content_type = named.take(named.len() - 7);
    assert(content_type =~= "image/png"@);
    assert("image/"@.is_prefix_of(content_type)) by {
        assert("image/"@ =~= content_type.subrange(0, 6));
    }
}

/// No character of base64 is white space.
proof fn lemma_base64_is_not_white(bytes: Seq<u8>, i: int)
    requires
        0 <= i < base64(bytes).len(),
    ensures
        !is_white(base64(bytes)[i]),
{
    let first = i / 4 * 3;
    let bits = byte_at(bytes, first) * 65_536 + byte_at(bytes, first + 1) * 256 + byte_at(bytes, first + 2);
    assert(0 <= bits < 16_777_216);
    assert forall|v: int| 0 <= v < 64 implies !is_white(#[trigger] base64_char(v)) by {}
    assert(0 <= bits / 262_144 < 64);
}

/// A picture that is ready to be handed on: its size and its address.
pub struct Picture {
    pub width: u32,
    pub height: u32,
    pub image_data_url: String,
}

/// Makes the address of a picture that is small enough, out of the file that the encoder gave.
pub fn picture_of(width: u32, height: u32, file: Result<Vec<u8>, String>) -> (picture: Result<Picture, String>)
    ensures
        match file {
            Ok(file) => picture is Ok && picture->Ok_0.width == width && picture->Ok_0.height == height
                && picture->Ok_0.image_data_url@ == png_url(file@),
            Err(error) => picture is Err && picture->Err_0@ == "截图编码失败："@ + error@,
        },
{
    match file {
        Ok(file) => Ok(Picture { width, height, image_data_url: image_data_url(&file) }),
        Err(error) => Err("截图编码失败：".to_string().concat(error.as_str())),
    }
}

/// Makes a picture that is ready to be handed on out of the pixels of a window. One whose longer
/// edge is over the limit is made smaller first; where it is not, there may be no bytes to spare,
/// since the encoder panics on a buffer of another length than the picture's.
pub fn encode_picture(width: u32, height: u32, pixels: Vec<u8>) -> (picture: Result<Picture, String>)
    requires
        0 < width,
        0 < height,
        pixels@.len() <= picture_bytes(width, height) || longer(width, height) > MAX_CAPTURE_EDGE,
    ensures
        if pixels@.len() < picture_bytes(width, height) {
            picture is Err && picture->Err_0@ == "无法创建截图图像"@
        } else if longer(width, height) <= MAX_CAPTURE_EDGE {
            match png_file(width, height, pixels@) {
                Ok(file) => picture is Ok && picture->Ok_0.width == width && picture->Ok_0.height == height
                    && picture->Ok_0.image_data_url@ == png_url(file),
                Err(error) => picture is Err && picture->Err_0@ == "截图编码失败："@ + error,
            }
        } else {
            exists|w: u32, h: u32, shrunk: Seq<u8>|
                {
                    &&& is_scaled_edge(w, width, longer(width, height), MAX_CAPTURE_EDGE)
                    &&& is_scaled_edge(h, height, longer(width, height), MAX_CAPTURE_EDGE)
                    &&& shrunk.len() == picture_bytes(w, h)
                    &&& can_shrink_to(width, height, pixels@, MAX_CAPTURE_EDGE, shrunk)
                    &&& match #[trigger] png_file(w, h, shrunk) {
                        Ok(file) => picture is Ok && picture->Ok_0.width == w && picture->Ok_0.height == h
                            && picture->Ok_0.image_data_url@ == png_url(file),
                        Err(error) => picture is Err && picture->Err_0@ == "截图编码失败："@ + error,
                    }
                }
        },
{
    proof {
        assert(width * height * 4 <= 0xffff_ffff_ffff_ffff * 4) by (nonlinear_arith)
            requires
                0 <= width <= 0xffff_ffff,
                0 <= height <= 0xffff_ffff,
        ;
    }
    let needed: u128 = product(width, height) * 4;
    if (pixels.len() as u128) < needed {
        return Err("无法创建截图图像".to_string());
    }
    let longest: u32 = if width < height {
        height
    } else {
        width
    };
    if longest > MAX_CAPTURE_EDGE {
        let (w, h, shrunk) = shrink(width, height, pixels, MAX_CAPTURE_EDGE);
        let ghost all = shrunk@;
        let file = encode_png(w, h, shrunk);
        assert(all.len() == picture_bytes(w, h));
        let picture = picture_of(w, h, file);
        assert(match png_file(w, h, all) {
            Ok(file) => picture is Ok && picture->Ok_0.image_data_url@ == png_url(file),
            Err(error) => picture is Err && picture->Err_0@ == "截图编码失败："@ + error,
        });
        picture
    } else {
        picture_of(width, height, encode_png(width, height, pixels))
    }
}

/// The product of two edges.
fn product(width: u32, height: u32) -> (pixels: u128)
    ensures
        pixels == width * height,
        pixels <= 0xffff_fffe_0000_0001,
{
    assert(width * height <= 0xffff_fffe_0000_0001) by (nonlinear_arith)
        requires
            0 <= width <= 0xffff_ffff,
            0 <= height <= 0xffff_ffff,
    ;
    (width as u128) * (height as u128)
}

/// The longer edge of a picture that was made smaller is as long as the limit, and the other one no
/// longer.
pub proof fn law_pictures_fit_the_limit(width: u32, height: u32, limit: u32, w: u32, h: u32)
    requires
        0 < width,
        0 < height,
        0 < limit < longer(width, height),
        is_scaled_edge(w, width, longer(width, height), limit),
        is_scaled_edge(h, height, longer(width, height), limit),
    ensures
        longer(w, h) == limit,
{
    lemma_scaled_edge_fits(w, width, longer(width, height), limit);
    lemma_scaled_edge_fits(h, height, longer(width, height), limit);
}

/// A scaled edge is at most the limit, and the longest edge becomes the limit.
proof fn lemma_scaled_edge_fits(scaled: u32, edge: u32, longest: u32, limit: u32)
    requires
        0 < edge <= longest,
        0 < limit,
        is_scaled_edge(scaled, edge, longest, limit),
    ensures
        scaled <= limit,
        edge == longest ==> scaled == limit,
{
    if scaled > limit {
        assert(scaled * longest - edge * limit >= longest) by (nonlinear_arith)
            requires
                scaled >= limit + 1,
                0 < edge <= longest,
                0 < limit,
        ;
    }
    if edge == longest && scaled < limit {
        assert(edge * limit - scaled * longest >= longest) by (nonlinear_arith)
            requires
                scaled + 1 <= limit,
                edge == longest,
        ;
        assert(2 * edge * limit >= 2 * longest) by (nonlinear_arith)
            requires
                edge == longest,
                1 <= limit,
                0 < longest,
        ;
    }
}

/// Puts together what is handed on of a window that was looked at.
pub fn captured_window(handle: usize, title: &str, process_name: String, picture: Picture) -> (captured: CapturedWindow)
    ensures
        captured.window_id@ == decimal(handle as nat),
        captured.window_title@ == trim(title@),
        captured.process_name == process_name,
        captured.width == picture.width,
        captured.height == picture.height,
        captured.image_data_url == picture.image_data_url,
{
    CapturedWindow {
        window_id: decimal_text(handle as u64),
        window_title: trimmed(title),
        process_name,
        width: picture.width,
        height: picture.height,
        image_data_url: picture.image_data_url,
    }
}

/// What came of looking at a window; there is nothing where the system is not supported.
pub fn capture_window(captured: Option<Result<CapturedWindow, String>>) -> (result: Result<CapturedWindow, String>)
    ensures
        match captured {
            Some(captured) => result == captured,
            None => result is Err && result->Err_0@ == "窗口视觉理解目前仅支持 Windows"@,
        },
{
    match captured {
        Some(captured) => captured,
        None => Err("窗口视觉理解目前仅支持 Windows".to_string()),
    }
}

/// A window is offered, in its place among the others, exactly when it is seen, is at least 120 pixels
/// by 80, has a title, and belongs to a program that is another one.
pub proof fn law_windows_of_others_are_offered(
    before: Seq<WindowInfo>,
    window: WindowInfo,
    after: Seq<WindowInfo>,
    current: u32,
)
    ensures
        ({
            let found = offered(before + seq![window] + after, current);
            let fits = window.rect is Some && window.rect->0.right - window.rect->0.left >= 120
                && window.rect->0.bottom - window.rect->0.top >= 80;
            if window.visible && fits && !is_blank(window.title@) && window.process_id != 0 && window.process_id
                != current {
                found == offered(before, current) + seq![window] + offered(after, current)
            } else {
                found == offered(before, current) + offered(after, current)
            }
        }),
{
    let keep = |window: WindowInfo| is_offered(window, current);
    let one = seq![window];
    Seq::filter_distributes_over_add(before + one, after, keep);
    Seq::filter_distributes_over_add(before, one, keep);
    reveal(Seq::filter);
    assert(one.drop_last() =~= Seq::<WindowInfo>::empty());
    assert(one.last() == window);
    reveal_with_fuel(Seq::filter, 2);
    if is_offered(window, current) {
        assert(one.filter(keep) =~= one);
    } else {
        assert(one.filter(keep) =~= Seq::<WindowInfo>::empty());
        assert(offered(before, current) + Seq::<WindowInfo>::empty() =~= offered(before, current));
    }
}

/// What is offered says which window it is, and tells its title without the white space around it.
pub proof fn law_offers_tell_the_window(target: VisualWindowTarget, window: WindowInfo)
    requires
        target.offers(window),
    ensures
        target.id@ == decimal(window.handle as nat),
        target.title@ == trim(window.title@),
        target.process_id == window.process_id,
        target.minimized == window.minimized,
{
}

/// A process is named after the file of its program, without its ending; where the file is not known
/// after the whole path, and where the program is not known by its number.
pub proof fn law_processes_are_named_after_their_programs(process_id: u32, full: Seq<char>, name: Seq<char>)
    ensures
        shown_process(process_id, Some((full, Some(name + ".exe"@)))) == shown_process(
            process_id,
            Some((full, Some(name))),
        ),
        !".exe"@.is_suffix_of(name) ==> shown_process(process_id, Some((full, Some(name)))) == name,
        shown_process(process_id, Some((name, None))) == shown_process(process_id, Some((full, Some(name)))),
        shown_process(process_id, None) == "PID "@ + decimal(process_id as nat),
{
    reveal_strlit(".exe");
    let whole = name + ".exe"@;
    assert(whole.subrange(whole.len() - 4, whole.len() as int) =~= ".exe"@);
    assert(".exe"@.is_suffix_of(whole));
    assert(whole.take(whole.len() - 4) =~= name);
}

/// A picture has the size of its window; it is refused exactly when the window is too small, an edge
/// is over 12000 pixels, or there are over forty million of them.
pub proof fn law_pictures_have_the_size_of_the_window(rect: WindowRect)
    ensures
        ({
            let width = rect.right - rect.left;
            let height = rect.bottom - rect.top;
            if 120 <= width && width <= 12_000 && 80 <= height && height <= 12_000 && width * height <= 40_000_000 {
                capture_size(Some(rect)) == Ok::<(int, int), Seq<char>>((width, height))
            } else {
                capture_size(Some(rect)) is Err
            }
        }),
        capture_size(None) is Err,
{
}

/// The pixels of a window are taken only once they were read; a window that does not draw itself is
/// copied from the screen, and any other step that does not work ends it.
pub proof fn law_pixels_are_read(step: CaptureView, event: EventView, error: Seq<char>)
    ensures
        next_capture(step, event) is Done && !(step is Done) ==> step is ReadPixels && event == EventView::Checked(
            true,
        ),
        next_capture(step, event) is ReadPixels && !(step is ReadPixels) ==> (step is PrintWindow && event
            == EventView::Checked(true)) || (step is CopyScreen && event == EventView::Done),
        next_capture(CaptureView::PrintWindow, EventView::Checked(false)) is CopyScreen,
        step is OpenWindow || step is CreateBuffer || step is CreateBitmap || step is BindBitmap
            || step is ReadPixels ==> next_capture(step, EventView::Checked(false)) is Failed,
        next_capture(CaptureView::CopyScreen, EventView::Failed(error)) is Failed && error.is_suffix_of(
            next_capture(CaptureView::CopyScreen, EventView::Failed(error))->Failed_0,
        ),
        step is Done || step is Failed ==> next_capture(step, event) == step,
{
    let said = "窗口截图失败："@ + error;
    assert(said.subrange(said.len() - error.len(), said.len() as int) =~= error);
}

/// The step that is reached from `step` after `steps` that work; `drawn` says whether the window draws
/// itself.
pub open spec fn smooth_capture(step: CaptureView, drawn: bool, steps: nat) -> CaptureView
    decreases steps,
{
    if steps == 0 {
        step
    } else {
        let event = if step is CopyScreen {
            EventView::Done
        } else if step is PrintWindow {
            EventView::Checked(drawn)
        } else {
            EventView::Checked(true)
        };
        smooth_capture(next_capture(step, event), drawn, (steps - 1) as nat)
    }
}

/// A window whose steps all work has its pixels taken after seven of them at most, whether it draws
/// itself or not.
pub proof fn law_pictures_are_taken(drawn: bool)
    ensures
        smooth_capture(CaptureView::OpenWindow, drawn, 7) is Done,
{
    reveal_with_fuel(smooth_capture, 8);
}

/// A window that was listed is the one that is looked at when it is asked for, and the first of the
/// list where none is.
pub proof fn law_the_window_that_was_asked_for_is_looked_at(
    listed: Vec<VisualWindowTarget>,
    window: WindowInfo,
    id: &str,
    foreground: ForegroundWindow,
    current: u32,
    handle: Result<usize, String>,
    choice: Result<WindowChoice, String>,
)
    requires
        listed@.len() > 0,
        listed@[0].offers(window),
        id@ == listed@[0].id@,
        call_ensures(first_listed, (Ok::<Vec<VisualWindowTarget>, String>(listed),), handle),
        call_ensures(choose_window, (Some(id), foreground, current), choice),
    ensures
        handle is Ok && handle->Ok_0 == window.handle,
        choice is Ok && choice->Ok_0 is Named && choice->Ok_0->Named_0 == window.handle,
{
    law_listed_windows_are_found_again(listed@[0], window);
    let number = decimal(window.handle as nat);
    crate::numbers::lemma_decimal_value(window.handle as nat);
    assert(crate::numbers::is_digit(number[0]));
    assert(crate::numbers::is_digit(number[number.len() - 1]));
    crate::text::lemma_trim_fixed(number);
}

/// Where no window is asked for, the one in front is looked at if it is seen and belongs to another
/// program, and else the first of the list.
pub proof fn law_the_window_in_front_is_looked_at(
    foreground: ForegroundWindow,
    current: u32,
    choice: Result<WindowChoice, String>,
)
    requires
        call_ensures(choose_window, (None, foreground, current), choice),
    ensures
        choice is Ok,
        choice->Ok_0 is Foreground <==> foreground.handle != 0 && foreground.visible && foreground.process_id
            != current,
        choice->Ok_0 is Foreground ==> choice->Ok_0->Foreground_0 == foreground.handle,
        !(choice->Ok_0 is Foreground) ==> choice->Ok_0 is FirstListed,
{
}

/// A picture that is handed on is at most 1800 pixels wide and high; one that is small enough already
/// keeps its size.
pub proof fn law_pictures_that_are_handed_on_are_small(
    width: u32,
    height: u32,
    pixels: Vec<u8>,
    picture: Result<Picture, String>,
)
    requires
        0 < width,
        0 < height,
        call_ensures(encode_picture, (width, height, pixels), picture),
        picture is Ok,
    ensures
        picture->Ok_0.width <= 1_800 && picture->Ok_0.height <= 1_800,
        width <= 1_800 && height <= 1_800 ==> picture->Ok_0.width == width && picture->Ok_0.height == height,
        width > 1_800 || height > 1_800 ==> longer(picture->Ok_0.width, picture->Ok_0.height) == 1_800,
{
    if longer(width, height) > MAX_CAPTURE_EDGE {
        let (w, h, shrunk) = choose|w: u32, h: u32, shrunk: Seq<u8>|
            {
                &&& is_scaled_edge(w, width, longer(width, height), MAX_CAPTURE_EDGE)
                &&& is_scaled_edge(h, height, longer(width, height), MAX_CAPTURE_EDGE)
                &&& shrunk.len() == picture_bytes(w, h)
                &&& can_shrink_to(width, height, pixels@, MAX_CAPTURE_EDGE, shrunk)
                &&& match #[trigger] png_file(w, h, shrunk) {
                    Ok(file) => picture is Ok && picture->Ok_0.width == w && picture->Ok_0.height == h
                        && picture->Ok_0.image_data_url@ == png_url(file),
                    Err(error) => picture is Err && picture->Err_0@ == "截图编码失败："@ + error,
                }
            };
        law_pictures_fit_the_limit(width, height, MAX_CAPTURE_EDGE, w, h);
    }
}

} // verus!
