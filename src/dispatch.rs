use vstd::prelude::*;
use crate::catalog::{auth_spec, AuthResult, DeviceCatalog};
use crate::registry::{ConnectionRegistry, SendReport};

verus! {

#[verifier::external_type_specification]
#[verifier::external_body]
pub struct ExJsonError(serde_json::Error);

/// The JSON string literal that serde_json writes for the text `s`: quotes
/// around it, with the characters that JSON requires escaped.
pub uninterp spec fn json_string_of(s: Seq<char>) -> Seq<char>;

/// Relies on `serde_json::to_string` applied to a `str`: it writes `s` as a
/// JSON string literal. A `str` is serialised with `serialize_str` into an
/// in-memory `Vec<u8>`, which never reports a write error, so the call
/// always returns `Ok`.
#[verifier::external_body]
fn json_string(s: &str) -> (r: Result<String, serde_json::Error>)
    ensures
        r is Ok,
        r matches Ok(t) ==> t@ == json_string_of(s@),
{
    serde_json::to_string(s)
}

/// A request to wake the device `id`, carrying the secret to check.
#[derive(Clone, Debug, PartialEq, Eq)]
pub struct WakeRequest {
    pub id: String,
    pub secret: String,
}

/// How a wake request ended.
#[derive(Clone, Copy, Debug, PartialEq, Eq, Structural)]
pub enum WakeOutcome {
    /// The catalog has no record for the id.
    DeviceNotFound,
    /// The secret does not match the record's.
    Unauthorized,
    /// The device holds no live connection.
    DeviceOffline,
    /// The wake command was queued on the device's connection.
    Dispatched,
    /// The device's connection refused the command.
    DeliveryFailed,
}

/// The text of the wake command whose MAC address is the JSON literal `quoted`:
/// `{"type":"wake","mac_address":` then `quoted` then `}`.
pub open spec fn wake_frame_text(quoted: Seq<char>) -> Seq<char> {
    "{\"type\":\"wake\",\"mac_address\":"@ + quoted + "}"@
}

/// The wake command for a MAC address given as a JSON string literal.
pub fn wake_frame_from_quoted(quoted: &str) -> (r: String)
    ensures
        r@ == wake_frame_text(quoted@),
{
    let mut out = String::from_str("{\"type\":\"wake\",\"mac_address\":");
    out.append(quoted);
    out.append("}");
    out
}

/// The wake command that addresses `mac`.
pub fn wake_frame(mac: &String) -> (r: String)
    ensures
        r@ == wake_frame_text(json_string_of(mac@)),
{
    match json_string(mac.as_str()) {
        Ok(quoted) => wake_frame_from_quoted(quoted.as_str()),
        Err(_) => String::new(),
    }
}

/// The outcome owed before any send: for a request that is not granted.
pub open spec fn refusal_of(auth: AuthResult) -> WakeOutcome {
    if auth == AuthResult::Unknown {
        WakeOutcome::DeviceNotFound
    } else {
        WakeOutcome::Unauthorized
    }
}

/// The outcome owed for what the registry reported of a send.
pub open spec fn report_outcome(report: SendReport) -> WakeOutcome {
    match report {
        SendReport::NoConnection => WakeOutcome::DeviceOffline,
        SendReport::Sent => WakeOutcome::Dispatched,
        SendReport::Failed => WakeOutcome::DeliveryFailed,
    }
}

/// Maps what the registry reported of a send to the wake outcome.
pub fn outcome_of_report(report: SendReport) -> (r: WakeOutcome)
    ensures
        r == report_outcome(report),
{
    match report {
        SendReport::NoConnection => WakeOutcome::DeviceOffline,
        SendReport::Sent => WakeOutcome::Dispatched,
        SendReport::Failed => WakeOutcome::DeliveryFailed,
    }
}

/// Checks `req` against the catalog: the wake command to deliver when the
/// secret matches, else the refusal.
pub fn prepare_wake(catalog: &DeviceCatalog, req: &WakeRequest) -> (r: Result<String, WakeOutcome>)
    requires
        catalog.wf(),
    ensures
        auth_spec(catalog@, req.id@, req.secret@) == AuthResult::Granted ==> (r matches Ok(f)
            && f@ == wake_frame_text(json_string_of(catalog@[req.id@].target_mac))),
        auth_spec(catalog@, req.id@, req.secret@) != AuthResult::Granted ==> r == Err::<
            String,
            WakeOutcome,
        >(refusal_of(auth_spec(catalog@, req.id@, req.secret@))),
{
    match catalog.authenticate(&req.id, &req.secret) {
        AuthResult::Unknown => Err(WakeOutcome::DeviceNotFound),
        AuthResult::Denied => Err(WakeOutcome::Unauthorized),
        AuthResult::Granted => match catalog.lookup(&req.id) {
            Some(record) => Ok(wake_frame(&record.target_mac)),
            None => Err(WakeOutcome::DeviceNotFound),
        },
    }
}

/// Hands a prepared wake command to the live connection of `id`.
pub fn deliver(registry: &ConnectionRegistry, id: &String, frame: String) -> (r: WakeOutcome)
    requires
        registry.wf(),
    ensures
        !registry@.contains_key(id@) ==> r == WakeOutcome::DeviceOffline,
        registry@.contains_key(id@) ==> r == WakeOutcome::Dispatched || r
            == WakeOutcome::DeliveryFailed,
{
    outcome_of_report(registry.send(id, frame))
}

/// Authenticates `req`, then pushes the wake command to the device's live
/// connection, if it has one.
pub fn dispatch(catalog: &DeviceCatalog, registry: &ConnectionRegistry, req: &WakeRequest) -> (r:
    WakeOutcome)
    requires
        catalog.wf(),
        registry.wf(),
    ensures
        auth_spec(catalog@, req.id@, req.secret@) != AuthResult::Granted ==> r == refusal_of(
            auth_spec(catalog@, req.id@, req.secret@),
        ),
        auth_spec(catalog@, req.id@, req.secret@) == AuthResult::Granted && !registry@.contains_key(
            req.id@,
        ) ==> r == WakeOutcome::DeviceOffline,
        auth_spec(catalog@, req.id@, req.secret@) == AuthResult::Granted && registry@.contains_key(
            req.id@,
        ) ==> r == WakeOutcome::Dispatched || r == WakeOutcome::DeliveryFailed,
{
    match prepare_wake(catalog, req) {
        Ok(frame) => deliver(registry, &req.id, frame),
        Err(outcome) => outcome,
    }
}

} // verus!
