use admin_backend::dashboard::get_dashboard;
use admin_backend::status::Status;

#[test]
fn dashboard_shows_the_sample_figures() {
    let d = get_dashboard();
    assert_eq!(d.cpu, 65);
    assert_eq!(d.memory, 78);
    assert_eq!(d.disk, 45);
    assert_eq!(d.network, 23);
    assert_eq!(d.uptime, "15d 4h 32m");
    assert_eq!(d.active_users, 1247);
    assert_eq!(d.requests, 89432);
    assert_eq!(d.errors, 12);
}

#[test]
fn status_codes_are_the_http_ones() {
    assert_eq!(Status::Success.code(), 200);
    assert_eq!(Status::Created.code(), 201);
    assert_eq!(Status::NoContent.code(), 204);
    assert_eq!(Status::NotFound.code(), 404);
}
