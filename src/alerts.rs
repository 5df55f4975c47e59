use vstd::prelude::*;
use crate::text::push_text;

verus! {

/// What `Debug` formatting makes of a text: the text in double quotes, with
/// special characters escaped.
pub uninterp spec fn debug_quoted(s: Seq<char>) -> Seq<char>;

/// Relies on the `Debug` formatting of `str` (`{:?}`), whose output depends
/// on the text alone.
#[verifier::external_body]
fn quote(s: &str) -> (r: String)
    ensures
        r@ == debug_quoted(s@),
{
    format!("{:?}", s)
}

/// One alert of a notification.
pub struct Alert {
    pub status: String,
    pub labels: Vec<(String, String)>,
    pub annotations: Vec<(String, String)>,
    pub starts_at: String,
    pub ends_at: String,
    pub generator_url: String,
}

/// A notification that the alert manager sends to the webhook.
pub struct Notification {
    pub receiver: String,
    pub status: String,
    pub alerts: Vec<Alert>,
    pub group_labels: Vec<(String, String)>,
    pub common_labels: Vec<(String, String)>,
    pub common_annotations: Vec<(String, String)>,
    pub external_url: String,
    pub version: String,
}

/// The value of the first pair at or after `i` whose key is `key`.
pub open spec fn lookup_from(list: Seq<(String, String)>, key: Seq<char>, i: int) -> Option<Seq<char>>
    decreases list.len() - i,
{
    if 0 <= i < list.len() {
        if list[i].0@ == key {
            Some(list[i].1@)
        } else {
            lookup_from(list, key, i + 1)
        }
    } else {
        None
    }
}

/// The value of `key` in `list`, or `default` when the key is absent.
pub open spec fn value_or(list: Seq<(String, String)>, key: Seq<char>, default: Seq<char>) -> Seq<char> {
    match lookup_from(list, key, 0) {
        Some(v) => v,
        None => default,
    }
}

/// The message for one alert, from the quoted service, instance, severity
/// and summary.
pub open spec fn alert_layout(
    service: Seq<char>,
    instance: Seq<char>,
    severity: Seq<char>,
    summary: Seq<char>,
) -> Seq<char> {
    "Services: "@ + service + "\nInstance: "@ + instance + "\nSeverity: "@ + severity
        + "\n----------\n"@ + summary + "\n"@
}

/// The message for one alert: its `service`, `instance` and `severity`
/// labels and its `summary` annotation, each quoted, with a stand-in text for
/// each that is missing.
pub open spec fn alert_text(a: Alert) -> Seq<char> {
    alert_layout(
        debug_quoted(value_or(a.labels@, "service"@, "Unknown service"@)),
        debug_quoted(value_or(a.labels@, "instance"@, "Unknown instance"@)),
        debug_quoted(value_or(a.labels@, "severity"@, "Unknown severity"@)),
        debug_quoted(value_or(a.annotations@, "summary"@, "Empty summary"@)),
    )
}

pub open spec fn alert_texts(alerts: Seq<Alert>) -> Seq<Seq<char>> {
    alerts.map_values(|a: Alert| alert_text(a))
}

pub open spec fn texts(s: Seq<String>) -> Seq<Seq<char>> {
    s.map_values(|t: String| t@)
}

/// The texts joined with line feeds between them.
pub open spec fn joined(ms: Seq<Seq<char>>) -> Seq<char>
    decreases ms.len(),
{
    if ms.len() == 0 {
        Seq::empty()
    } else if ms.len() == 1 {
        ms[0]
    } else {
        joined(ms.drop_last()) + "\n"@ + ms.last()
    }
}

fn value_or_default<'a>(list: &'a Vec<(String, String)>, key: &str, default: &'a str) -> (r: &'a str)
    ensures
        r@ == value_or(list@, key@, default@),
{
    let k = key.to_owned();
    let mut i: usize = 0;
    while i < list.len()
        invariant
            i <= list.len(),
            k@ == key@,
            lookup_from(list@, key@, i as int) == lookup_from(list@, key@, 0),
        decreases list.len() - i,
    {
        if list[i].0 == k {
            return list[i].1.as_str();
        }
        i = i + 1;
    }
    default
}

/// The message for one alert from its already quoted parts.
pub fn alert_message(service: &str, instance: &str, severity: &str, summary: &str) -> (r: String)
    ensures
        r@ == alert_layout(service@, instance@, severity@, summary@),
{
    let mut s = String::new();
    push_text(&mut s, "Services: ");
    push_text(&mut s, service);
    push_text(&mut s, "\nInstance: ");
    push_text(&mut s, instance);
    push_text(&mut s, "\nSeverity: ");
    push_text(&mut s, severity);
    push_text(&mut s, "\n----------\n");
    push_text(&mut s, summary);
    push_text(&mut s, "\n");
    assert(s@ =~= alert_layout(service@, instance@, severity@, summary@));
    s
}

/// The messages joined with line feeds; `None` when there are none.
pub fn join_messages(msgs: &Vec<String>) -> (r: Option<String>)
    ensures
        r is None <==> msgs@.len() == 0,
        r is Some ==> r->Some_0@ == joined(texts(msgs@)),
{
    if msgs.len() == 0 {
        return None;
    }
    let mut s = String::new();
    let mut i: usize = 0;
    while i < msgs.len()
        invariant
            i <= msgs.len(),
            s@ == joined(texts(msgs@).take(i as int)),
        decreases msgs.len() - i,
    {
        let ghost ts = texts(msgs@);
        if i > 0 {
            push_text(&mut s, "\n");
        }
        push_text(&mut s, msgs[i].as_str());
        assert(ts.take(i + 1).drop_last() =~= ts.take(i as int));
        if i == 0 {
            assert(s@ =~= joined(ts.take(1)));
        }
        i = i + 1;
    }
    assert(texts(msgs@).take(i as int) =~= texts(msgs@));
    Some(s)
}

/// The text to relay for a notification: one message per alert, joined with
/// line feeds; `None` when there are no alerts.
pub fn generate_message(n: &Notification) -> (r: Option<String>)
    ensures
        r is None <==> n.alerts@.len() == 0,
        r is Some ==> r->Some_0@ == joined(alert_texts(n.alerts@)),
{
    let mut msgs: Vec<String> = Vec::new();
    let mut i: usize = 0;
    while i < n.alerts.len()
        invariant
            i <= n.alerts.len(),
            msgs@.len() == i,
            forall|j: int| 0 <= j < i ==> (#[trigger] msgs@[j])@ == alert_text(n.alerts@[j]),
        decreases n.alerts.len() - i,
    {
        let a = &n.alerts[i];
        let service = quote(value_or_default(&a.labels, "service", "Unknown service"));
        let instance = quote(value_or_default(&a.labels, "instance", "Unknown instance"));
        let severity = quote(value_or_default(&a.labels, "severity", "Unknown severity"));
        let summary = quote(value_or_default(&a.annotations, "summary", "Empty summary"));
        let m = alert_message(service.as_str(), instance.as_str(), severity.as_str(), summary.as_str());
        msgs.push(m);
        i = i + 1;
    }
    assert(texts(msgs@) =~= alert_texts(n.alerts@));
    join_messages(&msgs)
}

} // verus!
