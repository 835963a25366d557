use tauri_llm::downloads::{
    clone_arguments, clone_outcome, download_timeouts, first_install_step, mirror_urls, model_is_whole,
    next_install_step, percent_log, percent_text, progress_at, shows_progress, target_is_installed, target_models,
    unpack_arguments, AttemptStep, DownloadAttempts, DownloadStep, FoundModel, InstallStep, InstallTarget,
    ModelDownload, ProgressMeter, StepEvent, SupportModel,
};
use tauri_llm::speech_model::{FileInfo, LocatedFile, ModelFiles};

fn url_of(step: AttemptStep) -> String {
    match step {
        AttemptStep::Try(url) => url.to_string(),
        AttemptStep::GiveUp(message) => panic!("{}", message),
    }
}

fn message_of(step: AttemptStep) -> String {
    match step {
        AttemptStep::Try(url) => panic!("{}", url),
        AttemptStep::GiveUp(message) => message,
    }
}

fn failure_of(step: InstallStep) -> String {
    match step {
        InstallStep::Failed(message) => message,
        _ => panic!("a failure was expected"),
    }
}

fn error(text: &str) -> StepEvent {
    StepEvent::Failed(text.to_string())
}

#[test]
fn mirrors_are_tried_in_order() {
    let mut attempts = DownloadAttempts::new(SupportModel::SileroVad);
    assert!(url_of(attempts.next()).starts_with("https://gh-proxy.com/"));
    assert!(!attempts.report(Ok(512 * 1024)));
    assert!(url_of(attempts.next()).starts_with("https://github.com/"));
    assert!(!attempts.report(Err("timeout".to_string())));
    assert_eq!(message_of(attempts.next()), "下载 Silero VAD 失败：timeout");
    let mut attempts = DownloadAttempts::new(SupportModel::SileroVad);
    assert!(attempts.report(Ok(512 * 1024 + 1)));
}

#[test]
fn incomplete_downloads_are_explained() {
    for (model, least, failure) in [
        (SupportModel::Punctuation, 50 * 1024 * 1024 + 1, "下载标点模型失败：下载文件不完整"),
        (SupportModel::Paraformer, 500 * 1024 * 1024 + 1, "下载 Paraformer 模型失败：下载文件不完整"),
        (SupportModel::Segmentation, 5 * 1024 * 1024, "下载说话人分段模型失败：下载文件不完整（5242879 字节）"),
        (SupportModel::Embedding, 30 * 1024 * 1024, "下载音色特征模型失败：下载文件不完整（31457279 字节）"),
    ] {
        let mut attempts = DownloadAttempts::new(model);
        for _ in mirror_urls(model) {
            assert!(!attempts.report(Ok(least - 1)));
        }
        assert_eq!(message_of(attempts.next()), failure);
        assert!(DownloadAttempts::new(model).report(Ok(least)));
    }
    assert_eq!(mirror_urls(SupportModel::Embedding).len(), 3);
}

#[test]
fn single_files_are_installed_beside_their_place() {
    let target = InstallTarget::SileroVad;
    let step = first_install_step(target);
    assert!(matches!(step, InstallStep::CheckAll));
    let step = next_install_step(target, step, StepEvent::Checked(false));
    let step = next_install_step(target, step, StepEvent::Done);
    assert!(matches!(step, InstallStep::CheckAllAgain));
    let step = next_install_step(target, step, StepEvent::Checked(false));
    let step = next_install_step(target, step, StepEvent::Done);
    let step = next_install_step(target, step, StepEvent::Done);
    assert!(matches!(step, InstallStep::Download(SupportModel::SileroVad)));
    let step = next_install_step(target, step, StepEvent::Done);
    let step = next_install_step(target, step, StepEvent::Done);
    assert!(matches!(step, InstallStep::CheckOld(SupportModel::SileroVad)));
    let step = next_install_step(target, step, StepEvent::Checked(true));
    assert!(matches!(step, InstallStep::RemoveOld(SupportModel::SileroVad)));
    let step = next_install_step(target, step, StepEvent::Done);
    let step = next_install_step(target, step, StepEvent::Done);
    assert!(matches!(step, InstallStep::Ready));
    let step = next_install_step(target, step, error("late"));
    assert!(matches!(step, InstallStep::Ready));
}

#[test]
fn speaker_models_are_installed_one_after_the_other() {
    let target = InstallTarget::SpeakerModels;
    let step = next_install_step(target, InstallStep::CreateClient, StepEvent::Done);
    assert!(matches!(step, InstallStep::Check(SupportModel::Segmentation)));
    let step = next_install_step(target, step, StepEvent::Checked(false));
    let step = next_install_step(target, step, StepEvent::Done);
    let step = next_install_step(target, step, StepEvent::Done);
    let step = next_install_step(target, step, StepEvent::Unpacked(Ok(())));
    let step = next_install_step(target, step, StepEvent::Done);
    assert!(matches!(step, InstallStep::CheckUnpacked(SupportModel::Segmentation)));
    let step = next_install_step(target, step, StepEvent::Checked(true));
    assert!(matches!(step, InstallStep::Check(SupportModel::Embedding)));
    let step = next_install_step(target, step, StepEvent::Checked(true));
    assert!(matches!(step, InstallStep::Ready));
}

#[test]
fn installation_failures_are_explained() {
    let fail = |target: InstallTarget, step: InstallStep, event: StepEvent| {
        failure_of(next_install_step(target, step, event))
    };
    assert_eq!(fail(InstallTarget::SileroVad, InstallStep::CreateDirectory, error("e")), "无法创建 Silero VAD 模型目录：e");
    assert_eq!(fail(InstallTarget::Punctuation, InstallStep::CreateDirectory, error("e")), "无法创建标点模型目录：e");
    assert_eq!(fail(InstallTarget::Paraformer, InstallStep::CreateDirectory, error("e")), "无法创建模型缓存目录：e");
    assert_eq!(fail(InstallTarget::Embedding, InstallStep::CreateDirectory, error("e")), "创建说话人分离模型目录失败：e");
    assert_eq!(fail(InstallTarget::SileroVad, InstallStep::CreateClient, error("e")), "创建 Silero VAD 下载客户端失败：e");
    assert_eq!(fail(InstallTarget::Punctuation, InstallStep::CreateClient, error("e")), "创建标点模型下载客户端失败：e");
    assert_eq!(fail(InstallTarget::Paraformer, InstallStep::CreateClient, error("e")), "创建 Paraformer 下载客户端失败：e");
    assert_eq!(fail(InstallTarget::SpeakerModels, InstallStep::CreateClient, error("e")), "创建模型下载客户端失败：e");
    assert_eq!(fail(InstallTarget::SileroVad, InstallStep::Save(SupportModel::SileroVad), error("e")), "保存 Silero VAD 模型失败：e");
    assert_eq!(
        fail(InstallTarget::Punctuation, InstallStep::Save(SupportModel::Punctuation), error("e")),
        "保存标点模型压缩包失败：e"
    );
    assert_eq!(
        fail(InstallTarget::SpeakerModels, InstallStep::Save(SupportModel::Segmentation), error("e")),
        "保存说话人分段模型失败：e"
    );
    assert_eq!(fail(InstallTarget::Embedding, InstallStep::Save(SupportModel::Embedding), error("e")), "保存音色特征模型失败：e");
    assert_eq!(
        fail(InstallTarget::SileroVad, InstallStep::RemoveOld(SupportModel::SileroVad), error("e")),
        "替换 Silero VAD 模型失败：e"
    );
    assert_eq!(
        fail(InstallTarget::Embedding, InstallStep::RemoveOld(SupportModel::Embedding), error("e")),
        "替换音色特征模型失败：e"
    );
    assert_eq!(
        fail(InstallTarget::SileroVad, InstallStep::Rename(SupportModel::SileroVad), error("e")),
        "完成 Silero VAD 模型缓存失败：e"
    );
    assert_eq!(
        fail(InstallTarget::Embedding, InstallStep::Rename(SupportModel::Embedding), error("e")),
        "完成音色特征模型缓存失败：e"
    );
    assert_eq!(
        fail(InstallTarget::Punctuation, InstallStep::Unpack(SupportModel::Punctuation), error("e")),
        "无法启动标点模型解压程序：e"
    );
    assert_eq!(
        fail(InstallTarget::SpeakerModels, InstallStep::Unpack(SupportModel::Segmentation), error("e")),
        "无法启动说话人分段模型解压程序：e"
    );
    assert_eq!(
        fail(InstallTarget::Paraformer, InstallStep::Unpack(SupportModel::Paraformer), error("e")),
        "无法启动 Paraformer 解压程序：e"
    );
    let complaint = || StepEvent::Unpacked(Err(" bad \n".to_string()));
    assert_eq!(
        fail(InstallTarget::Punctuation, InstallStep::Unpack(SupportModel::Punctuation), complaint()),
        "解压标点模型失败：bad"
    );
    let step = next_install_step(InstallTarget::SpeakerModels, InstallStep::Unpack(SupportModel::Segmentation), complaint());
    assert_eq!(fail(InstallTarget::SpeakerModels, step, StepEvent::Done), "解压说话人分段模型失败：bad");
    let step = next_install_step(InstallTarget::Paraformer, InstallStep::Unpack(SupportModel::Paraformer), complaint());
    assert_eq!(fail(InstallTarget::Paraformer, step, StepEvent::Done), "解压 Paraformer 模型失败：bad");
    assert_eq!(
        fail(InstallTarget::Punctuation, InstallStep::CheckUnpacked(SupportModel::Punctuation), StepEvent::Checked(false)),
        "解压后的标点模型文件不完整"
    );
    assert_eq!(
        fail(InstallTarget::SpeakerModels, InstallStep::CheckUnpacked(SupportModel::Segmentation), StepEvent::Checked(false)),
        "解压后的说话人分段模型文件不完整"
    );
    assert_eq!(
        fail(InstallTarget::Paraformer, InstallStep::CheckUnpacked(SupportModel::Paraformer), StepEvent::Checked(false)),
        "解压后的 Paraformer Streaming 模型文件不完整"
    );
    assert_eq!(fail(InstallTarget::SileroVad, InstallStep::Download(SupportModel::SileroVad), error("whole")), "whole");
}

#[test]
fn the_streaming_model_is_unpacked_and_tidied() {
    let target = InstallTarget::Paraformer;
    let step = first_install_step(target);
    assert!(matches!(step, InstallStep::CreateDirectory));
    let step = next_install_step(target, step, StepEvent::Done);
    let step = next_install_step(target, step, StepEvent::Done);
    let step = next_install_step(target, step, StepEvent::Done);
    assert!(matches!(step, InstallStep::Unpack(SupportModel::Paraformer)));
    let step = next_install_step(target, step, StepEvent::Unpacked(Ok(())));
    let step = next_install_step(target, step, StepEvent::Done);
    let step = next_install_step(target, step, StepEvent::Checked(true));
    assert!(matches!(step, InstallStep::RemoveExtras));
    assert!(matches!(next_install_step(target, step, StepEvent::Done), InstallStep::Ready));
    assert_eq!(download_timeouts(target), (20, 3_600));
    assert_eq!(download_timeouts(InstallTarget::SileroVad), (15, 60));
    assert_eq!(download_timeouts(InstallTarget::Punctuation), (15, 300));
    assert_eq!(download_timeouts(InstallTarget::SpeakerModels), (20, 600));
}

#[test]
fn progress_is_shown_once_and_stays_below_a_hundred() {
    let mut meter = ProgressMeter::new();
    assert_eq!(meter.advance(0, Some(1_000)), Some(0));
    assert_eq!(meter.advance(9, Some(1_000)), None);
    assert_eq!(meter.advance(10, Some(1_000)), Some(1));
    assert_eq!(meter.advance(1_000, Some(1_000)), Some(99));
    assert_eq!(meter.advance(2_000, Some(1_000)), None);
    assert_eq!(meter.advance(1, None), None);
    assert_eq!(meter.advance(1, Some(0)), None);
    assert_eq!(ProgressMeter::new().advance(u64::MAX, Some(u64::MAX)), Some(1));
    assert_eq!(percent_text(7), "7%");
    assert_eq!(percent_log(15, "3", "20").as_deref(), Some("Paraformer 下载 15%（3/20 MB）"));
    assert!(percent_log(16, "3", "20").is_none());
}

#[test]
fn clones_are_followed() {
    assert!(shows_progress("Receiving objects:  42% (1/2)"));
    assert!(!shows_progress("Receiving objects: done"));
    assert!(!shows_progress("Resolving deltas: 42%"));
    assert_eq!(clone_arguments("r", "d"), vec!["clone", "--depth", "1", "--progress", "r", "d"]);
    assert!(clone_outcome(true, "exit status: 0").is_ok());
    assert_eq!(
        clone_outcome(false, "exit status: 128").err().unwrap(),
        "Git clone failed with status: exit status: 128"
    );
}

#[test]
fn model_downloads_go_through_their_steps() {
    let run = |id: &str, found: bool| -> Vec<String> {
        let download = ModelDownload::new(id).unwrap_or_else(|message| panic!("{}", message));
        let mut step = DownloadStep::Unload;
        let mut names = Vec::new();
        loop {
            let (name, event) = match &step {
                DownloadStep::Unload => ("unload", StepEvent::Done),
                DownloadStep::CheckDirectory => ("check", StepEvent::Checked(found)),
                DownloadStep::RemoveDirectory => ("remove", StepEvent::Done),
                DownloadStep::InstallArchive => ("archive", StepEvent::Done),
                DownloadStep::CreateDirectory => ("create", StepEvent::Done),
                DownloadStep::Clone(repository) => (*repository, StepEvent::Done),
                DownloadStep::PrepareVad(log) => (*log, StepEvent::Done),
                DownloadStep::PreparePunctuation => ("punctuation", StepEvent::Done),
                DownloadStep::Complete => return names,
                DownloadStep::Failed(message) => panic!("{}", message),
            };
            names.push(name.to_string());
            step = download.next_step(step, event);
        }
    };
    assert_eq!(
        run("", true),
        vec!["unload", "check", "remove", "archive", "正在准备 Silero VAD 和中英文标点模型...", "punctuation"]
    );
    assert_eq!(
        run("sense-voice", false),
        vec![
            "unload",
            "check",
            "create",
            "https://huggingface.co/csukuangfj/sherpa-onnx-sense-voice-zh-en-ja-ko-yue-2024-07-17",
            "正在准备 Silero VAD 模型..."
        ]
    );
    assert_eq!(run("zipformer-zh", true).len(), 7);
    let download = ModelDownload::new("zipformer-zh").unwrap_or_else(|message| panic!("{}", message));
    assert!(download.replaces("zipformer-zh") && !download.replaces("sense-voice"));
    assert_eq!(download.spec().directory, "sherpa-onnx-zipformer-ctc-zh-int8-2025-07-03");
    assert!(matches!(
        download.next_step(DownloadStep::RemoveDirectory, error("busy")),
        DownloadStep::Failed(message) if message == "busy"
    ));
    assert_eq!(ModelDownload::new("x").err().unwrap(), "不支持的本地语音模型：x");
}

fn found(len: u64) -> FoundModel {
    FoundModel::File(Some(FileInfo { is_file: true, len }))
}

fn streaming_files(decoder: u64) -> FoundModel {
    let file = |len: u64| LocatedFile { path: String::new(), info: Some(FileInfo { is_file: true, len }) };
    FoundModel::Files(ModelFiles {
        directory: String::new(),
        tokens: file(0),
        model_int8: file(0),
        model: file(0),
        encoder_int8: file(2_000_000),
        decoder_int8: file(decoder),
    })
}

#[test]
fn models_are_whole_or_not() {
    for (model, least) in [
        (SupportModel::SileroVad, 524_289),
        (SupportModel::Punctuation, 52_428_801),
        (SupportModel::Segmentation, 5_242_880),
        (SupportModel::Embedding, 31_457_280),
    ] {
        assert!(model_is_whole(model, &found(least)));
        assert!(!model_is_whole(model, &found(least - 1)));
        assert!(!model_is_whole(model, &FoundModel::File(None)));
        assert!(!model_is_whole(model, &FoundModel::File(Some(FileInfo { is_file: false, len: least }))));
        assert!(!model_is_whole(model, &streaming_files(2_000_000)));
    }
    assert!(model_is_whole(SupportModel::Paraformer, &streaming_files(2_000_000)));
    assert!(!model_is_whole(SupportModel::Paraformer, &streaming_files(1_048_576)));
    assert!(!model_is_whole(SupportModel::Paraformer, &found(u64::MAX)));
}

#[test]
fn speakers_need_both_models() {
    assert_eq!(
        target_models(InstallTarget::SpeakerModels),
        vec![SupportModel::Segmentation, SupportModel::Embedding]
    );
    let installed = |first: u64, second: u64| {
        target_is_installed(InstallTarget::SpeakerModels, &vec![found(first), found(second)])
    };
    assert!(installed(5_242_880, 31_457_280));
    assert!(!installed(5_242_880, 31_457_279));
    assert!(!installed(5_242_879, 31_457_280));
    assert!(!target_is_installed(InstallTarget::SpeakerModels, &vec![found(u64::MAX)]));
    assert!(target_is_installed(InstallTarget::Embedding, &vec![found(31_457_280)]));
    assert!(target_is_installed(InstallTarget::Paraformer, &vec![streaming_files(2_000_000)]));
    assert!(!target_is_installed(InstallTarget::SileroVad, &vec![]));
}

#[test]
fn a_hundred_percent_means_complete() {
    let download = match ModelDownload::new("sense-voice") {
        Ok(download) => download,
        Err(message) => panic!("{}", message),
    };
    let mut step = download.first_step();
    assert!(matches!(step, DownloadStep::Unload));
    let mut steps = 0;
    while progress_at(&step).is_none() {
        let event = match &step {
            DownloadStep::CheckDirectory => StepEvent::Checked(true),
            _ => StepEvent::Done,
        };
        step = download.next_step(step, event);
        steps += 1;
        assert!(steps <= 8);
    }
    assert!(matches!(step, DownloadStep::Complete));
    assert_eq!(progress_at(&step), Some("100%"));
    assert!(progress_at(&DownloadStep::Failed("100%".to_string())).is_none());
    let mut meter = ProgressMeter::new();
    assert_eq!(meter.advance(10, Some(10)).map(percent_text).as_deref(), Some("99%"));
    assert_eq!(unpack_arguments("a b.tar", "d"), vec!["-xjf", "a b.tar", "-C", "d"]);
}
