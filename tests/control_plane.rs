use cpm::cache::{cache_dir_path, cache_entry_path, check_missing, plan_upload};
use cpm::control::{check_reply, expect_missing, expect_upload, ClientError, ControlSession, Sequencer};
use cpm::cpm_api::{Error, Overlapped, PackageId, Request, Response};

fn id(name: &str, version: &str) -> PackageId {
    PackageId::new(name.to_string(), version.to_string())
}

fn names(ps: &[PackageId]) -> Vec<String> {
    ps.iter().map(|p| p.to_string()).collect()
}

#[test]
fn package_id_reads_name_slash_version() {
    assert_eq!(id("foo", "1.0.0").to_string(), "foo/1.0.0");
}

#[test]
fn cache_paths() {
    assert_eq!(cache_entry_path("/var/cache", "foo", "1.0.0"), "/var/cache/foo/1.0.0");
    assert_eq!(cache_dir_path("/var/cache", "foo"), "/var/cache/foo");
}

#[test]
fn check_missing_keeps_uncached_in_order() {
    let mut ps = vec![id("a", "1"), id("b", "2"), id("c", "3"), id("d", "4")];
    check_missing(&mut ps, &[false, true, false, true]);
    assert_eq!(names(&ps), vec!["a/1", "c/3"]);
    let mut none: Vec<PackageId> = Vec::new();
    check_missing(&mut none, &[]);
    assert!(none.is_empty());
}

#[test]
fn control_round_trip() {
    let mut session = ControlSession::new();
    let request = Request::CheckMissing(vec![id("foo", "1.0.0"), id("bar", "2.0.0")]);
    let Request::CheckMissing(mut ps) = session.accept(Overlapped { sequence: 42, payload: request }).unwrap() else {
        panic!("expected a check")
    };
    check_missing(&mut ps, &[true, false]);
    let reply = session.respond(Ok(Response::CheckMissing(ps))).unwrap();
    assert_eq!(reply.sequence, 42);
    let missing = expect_missing(check_reply(42, reply).unwrap()).unwrap();
    assert_eq!(names(&missing), vec!["bar/2.0.0"]);

    let upload = Request::UploadCrate { package: id("bar", "2.0.0"), content: vec![0x01, 0x02] };
    let Request::UploadCrate { package, content } = session.accept(Overlapped { sequence: 43, payload: upload }).unwrap() else {
        panic!("expected an upload")
    };
    assert_eq!(content, vec![0x01, 0x02]);
    let plan = plan_upload("/cache", &package, true, false);
    assert!(plan.store);
    let reply = session.respond(Ok(Response::UploadCrate)).unwrap();
    assert_eq!(reply.sequence, 43);
    assert!(expect_upload(check_reply(43, reply).unwrap()).is_ok());

    let Request::CheckMissing(mut ps) = session
        .accept(Overlapped { sequence: 44, payload: Request::CheckMissing(vec![id("bar", "2.0.0")]) })
        .unwrap()
    else {
        panic!("expected a check")
    };
    check_missing(&mut ps, &[true]);
    assert!(ps.is_empty());
}

#[test]
fn sequence_zero_is_echoed() {
    let mut session = ControlSession::new();
    assert!(session.accept(Overlapped { sequence: 0, payload: Request::CheckMissing(Vec::new()) }).is_some());
    let reply = session.respond(Ok(Response::CheckMissing(Vec::new()))).unwrap();
    assert_eq!(reply.sequence, 0);
}

#[test]
fn responses_follow_requests_one_for_one() {
    let mut session = ControlSession::new();
    assert!(session.respond(Ok(Response::UploadCrate)).is_none());
    assert!(session.accept(Overlapped { sequence: 7, payload: Request::CheckMissing(Vec::new()) }).is_some());
    assert!(session.accept(Overlapped { sequence: 8, payload: Request::CheckMissing(Vec::new()) }).is_none());
    assert_eq!(session.respond(Err(Error::Io)).unwrap().sequence, 7);
    assert!(session.respond(Ok(Response::UploadCrate)).is_none());
    assert!(session.accept(Overlapped { sequence: 8, payload: Request::CheckMissing(Vec::new()) }).is_some());
    assert_eq!(session.respond(Ok(Response::UploadCrate)).unwrap().sequence, 8);
}

#[test]
fn upload_into_new_directory_creates_it_first() {
    let plan = plan_upload("/cache", &id("foo", "1.0.0"), false, false);
    assert!(plan.create_dir);
    assert!(plan.store);
    assert_eq!(plan.dir, "/cache/foo");
    assert_eq!(plan.file, "/cache/foo/1.0.0");
    assert_eq!(plan.temp, "/cache/foo/.1.0.0.partial");
}

#[test]
fn second_upload_is_ignored() {
    let first = plan_upload("/cache", &id("foo", "1.0.0"), true, false);
    assert!(!first.create_dir);
    assert!(first.store);
    let second = plan_upload("/cache", &id("foo", "1.0.0"), true, true);
    assert!(!second.create_dir);
    assert!(!second.store);
}

#[test]
fn client_numbers_requests_from_one() {
    let mut seq = Sequencer::new();
    assert_eq!(seq.last(), 0);
    let a = seq.envelope(Request::CheckMissing(Vec::new()));
    let b = seq.envelope(Request::CheckMissing(Vec::new()));
    assert_eq!(a.sequence, 1);
    assert_eq!(b.sequence, 2);
    assert_eq!(seq.last(), 2);
}

#[test]
fn client_checks_replies() {
    let reply = Overlapped { sequence: 3, payload: Ok(Response::UploadCrate) };
    assert_eq!(check_reply(4, reply).err(), Some(ClientError::SequenceError));
    let reply = Overlapped { sequence: 4, payload: Err(Error::NotImplemented) };
    assert_eq!(check_reply(4, reply).err(), Some(ClientError::ProtocolError(Error::NotImplemented)));
    assert_eq!(expect_upload(Response::CheckMissing(Vec::new())), Err(ClientError::UnexpectedResponse));
    assert_eq!(expect_missing(Response::UploadCrate).err(), Some(ClientError::UnexpectedResponse));
}
