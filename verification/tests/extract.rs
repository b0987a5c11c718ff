use slip_core::docker::DaemonError;
use slip_core::error::RuntimeError;
use slip_core::extract::{ExtractAction, ExtractEvent, Extraction};

/// Runs an extraction against a runtime with the given answers, and notes what
/// was asked of it.
fn extract(
    created: Result<&str, DaemonError>,
    downloaded: Result<Vec<u8>, DaemonError>,
    unpacked: Result<Option<Vec<u8>>, String>,
) -> (Vec<&'static str>, Result<Option<Vec<u8>>, RuntimeError>) {
    let (mut machine, mut action) = Extraction::begin("img", "v1", "/slip/slip.toml", "01arz3nd");
    let mut created = Some(created);
    let mut downloaded = Some(downloaded);
    let mut unpacked = Some(unpacked);
    let mut log = Vec::new();
    loop {
        let event = match action {
            ExtractAction::CreateContainer { name, image } => {
                log.push("create");
                assert_eq!(name, "slip-extract-01arz3nd");
                assert_eq!(image, "img:v1");
                ExtractEvent::Created(created.take().unwrap().map(|c| c.to_string()))
            }
            ExtractAction::Download { container, path } => {
                log.push("download");
                assert_eq!(container, "tmp");
                assert_eq!(path, "/slip/slip.toml");
                ExtractEvent::Downloaded(downloaded.take().unwrap())
            }
            ExtractAction::RemoveContainer { container } => {
                log.push("remove");
                assert_eq!(container, "tmp");
                ExtractEvent::Removed
            }
            ExtractAction::Unpack { archive, .. } => {
                log.push("unpack");
                assert_eq!(archive, vec![1, 2, 3]);
                ExtractEvent::Unpacked(unpacked.take().unwrap())
            }
            ExtractAction::Finish(result) => return (log, result),
        };
        assert!(machine.expects(&event));
        action = machine.step(event);
    }
}

fn error(status: Option<u16>) -> DaemonError {
    DaemonError { status, message: "no".to_string() }
}

#[test]
fn a_file_comes_out_and_the_container_goes() {
    let (log, result) = extract(Ok("tmp"), Ok(vec![1, 2, 3]), Ok(Some(vec![7])));
    assert_eq!(log, vec!["create", "download", "remove", "unpack"]);
    assert_eq!(result.unwrap(), Some(vec![7]));
}

#[test]
fn a_missing_file_is_no_error() {
    let (log, result) = extract(Ok("tmp"), Err(error(Some(404))), Ok(None));
    assert_eq!(log, vec!["create", "download", "remove"]);
    assert_eq!(result.unwrap(), None);
}

#[test]
fn failures_are_reported_after_the_removal() {
    let (log, result) = extract(Ok("tmp"), Err(error(Some(500))), Ok(None));
    assert_eq!(log, vec!["create", "download", "remove"]);
    assert!(matches!(result, Err(RuntimeError::ContainerError(m)) if m == "no"));
    let (log, result) = extract(Err(error(None)), Ok(vec![]), Ok(None));
    assert_eq!(log, vec!["create"]);
    assert!(matches!(result, Err(RuntimeError::ContainerError(m)) if m == "no"));
    let (_, result) = extract(Ok("tmp"), Ok(vec![1, 2, 3]), Err("bad archive".to_string()));
    assert!(matches!(result, Err(RuntimeError::ContainerError(m)) if m == "bad archive"));
}
