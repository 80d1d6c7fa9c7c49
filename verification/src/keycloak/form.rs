//! Login-form discovery in identity-provider HTML pages.
//!
//! The HTML itself is parsed by the scraper crate behind trusted
//! queries whose results carry uninterpreted names; everything decided
//! from those results — the method, the device filtering, the shape of
//! the form descriptor — is verified.

use vstd::prelude::*;
use crate::text::{chars_of, chars_eq, string_from_chars};

verus! {

/// How a form asks to be submitted.
#[derive(Clone, Copy, Debug, PartialEq, Eq, Structural)]
pub enum FormMethod {
    GET,
    POST,
}

/// One MFA device offered by the provider's device selector.
#[derive(Debug)]
pub struct MFADevice {
    pub name: String,
    pub id: String,
}

/// A discovered form: how to submit it, where, and which MFA devices
/// it offers.
#[derive(Debug)]
pub struct FormInfo {
    pub method: FormMethod,
    pub action: String,
    pub mfa_devices: Vec<MFADevice>,
}

/// The view of an optional string.
pub open spec fn opt_view(o: Option<String>) -> Option<Seq<char>> {
    match o {
        Some(s) => Some(s@),
        None => None,
    }
}

/// The view of one scanned `option` element.
pub open spec fn option_views(t: (Option<String>, Option<String>, bool)) -> (
    Option<Seq<char>>,
    Option<Seq<char>>,
    bool,
) {
    (opt_view(t.0), opt_view(t.1), t.2)
}

/// The `method` and `action` attributes of the first element matching
/// a selector; `None` when nothing matches.
pub uninterp spec fn spec_form_attrs(doc: Seq<char>, selector: Seq<char>) -> Option<(
    Option<Seq<char>>,
    Option<Seq<char>>,
)>;

/// Relies on scraper's `Html::parse_document`, `Selector::parse` and
/// `ElementRef::attr`: the first element of the document matching the
/// selector, with its `method` and `action` attribute values, a
/// function of the document and the selector alone.
#[verifier::external_body]
fn query_form_attrs(doc: &str, selector: &str) -> (r: Option<(Option<String>, Option<String>)>)
    ensures
        match r {
            Some(ma) => spec_form_attrs(doc@, selector@) == Some((opt_view(ma.0), opt_view(ma.1))),
            None => spec_form_attrs(doc@, selector@) is None,
        },
{
    let html = scraper::Html::parse_document(doc);
    let sel = match scraper::Selector::parse(selector) {
        Ok(s) => s,
        Err(_) => return None,
    };
    let el = html.select(&sel).next()?;
    let e = el.value();
    Some((e.attr("method").map(|s| s.to_string()), e.attr("action").map(|s| s.to_string())))
}

/// The `option` elements matching a selector: first text node,
/// `value` attribute, and whether a `disabled` attribute is present,
/// in document order.
pub uninterp spec fn spec_form_options(doc: Seq<char>, selector: Seq<char>) -> Seq<(
    Option<Seq<char>>,
    Option<Seq<char>>,
    bool,
)>;

/// Relies on scraper's `Html::parse_document`, `Selector::parse`,
/// `ElementRef::text` and `ElementRef::attr`: the matching elements in
/// document order, a function of the document and the selector alone.
#[verifier::external_body]
fn query_form_options(doc: &str, selector: &str) -> (r: Vec<(Option<String>, Option<String>, bool)>)
    ensures
        r@.map_values(|t: (Option<String>, Option<String>, bool)| option_views(t))
            == spec_form_options(doc@, selector@),
{
    let html = scraper::Html::parse_document(doc);
    let sel = match scraper::Selector::parse(selector) {
        Ok(s) => s,
        Err(_) => return Vec::new(),
    };
    html.select(&sel).map(|el| (
        el.text().next().map(|t| t.to_string()),
        el.value().attr("value").map(|v| v.to_string()),
        el.value().attr("disabled").is_some(),
    )).collect()
}

/// The `value` attribute of the first element matching a selector:
/// `None` when nothing matches, `Some(None)` when the element has no
/// such attribute.
pub uninterp spec fn spec_input_value(doc: Seq<char>, selector: Seq<char>) -> Option<
    Option<Seq<char>>,
>;

/// Relies on scraper's `Html::parse_document`, `Selector::parse` and
/// `ElementRef::attr`: the first matching element's `value`
/// attribute, a function of the document and the selector alone.
#[verifier::external_body]
fn query_input_value(doc: &str, selector: &str) -> (r: Option<Option<String>>)
    ensures
        match r {
            Some(v) => spec_input_value(doc@, selector@) == Some(opt_view(v)),
            None => spec_input_value(doc@, selector@) is None,
        },
{
    let html = scraper::Html::parse_document(doc);
    let sel = match scraper::Selector::parse(selector) {
        Ok(s) => s,
        Err(_) => return None,
    };
    let el = html.select(&sel).next()?;
    Some(el.value().attr("value").map(|v| v.to_string()))
}

/// How a `method` attribute is read: only `GET`/`get` and
/// `POST`/`post` are accepted.
pub open spec fn spec_method_of(m: Seq<char>) -> Option<FormMethod> {
    if m == ("GET")@ || m == ("get")@ {
        Some(FormMethod::GET)
    } else if m == ("POST")@ || m == ("post")@ {
        Some(FormMethod::POST)
    } else {
        None
    }
}

/// The devices kept from the scanned `option` elements, from index
/// `i` on: disabled options and options without a text node or a
/// `value` attribute are skipped.
pub open spec fn spec_devices(
    options: Seq<(Option<Seq<char>>, Option<Seq<char>>, bool)>,
    i: int,
) -> Seq<(Seq<char>, Seq<char>)>
    decreases options.len() - i when 0 <= i
{
    if i >= options.len() {
        seq![]
    } else {
        match (options[i].0, options[i].1, options[i].2) {
            (Some(name), Some(id), false) => seq![(name, id)] + spec_devices(options, i + 1),
            _ => spec_devices(options, i + 1),
        }
    }
}

/// The views of a device list.
pub open spec fn device_views(ds: Seq<MFADevice>) -> Seq<(Seq<char>, Seq<char>)> {
    ds.map_values(|d: MFADevice| (d.name@, d.id@))
}

/// The selector for a form's MFA device options.
pub open spec fn spec_mfa_selector(selector: Seq<char>) -> Seq<char> {
    selector + (" select[name=selectedCredentialId] option")@
}

/// The outcome of form discovery over the views: the method, the
/// action, and the device list, or `None` when no matching element
/// has a usable `method` and `action`.
pub open spec fn spec_from_html(doc: Seq<char>, selector: Seq<char>) -> Option<(
    FormMethod,
    Seq<char>,
    Seq<(Seq<char>, Seq<char>)>,
)> {
    match spec_form_attrs(doc, selector) {
        None => None,
        Some(ma) => match (ma.0, ma.1) {
            (Some(m), Some(a)) => match spec_method_of(m) {
                None => None,
                Some(meth) => Some(
                    (meth, a, spec_devices(spec_form_options(doc, spec_mfa_selector(selector)), 0)),
                ),
            },
            _ => None,
        },
    }
}

/// The view of a discovered form.
pub open spec fn form_view(f: FormInfo) -> (FormMethod, Seq<char>, Seq<(Seq<char>, Seq<char>)>) {
    (f.method, f.action@, device_views(f.mfa_devices@))
}

impl FormInfo {
    /// Finds the first form matching `selector` in the document:
    /// `None` when no element matches, when the `method` or `action`
    /// attribute is missing, or when the method is not GET/POST.  The
    /// MFA devices are the form's enabled `selectedCredentialId`
    /// options in document order.
    #[verifier::loop_isolation(false)]
    pub fn from_html(document: &str, selector: &str) -> (r: Option<FormInfo>)
        ensures
            match r {
                Some(f) => spec_from_html(document@, selector@) == Some(form_view(f)),
                None => spec_from_html(document@, selector@) is None,
            },
    {
        let ma = match query_form_attrs(document, selector) {
            None => {
                return None;
            },
            Some(ma) => ma,
        };
        let m = match ma.0 {
            None => {
                return None;
            },
            Some(m) => m,
        };
        let action = match ma.1 {
            None => {
                return None;
            },
            Some(a) => a,
        };
        let mc = chars_of(m.as_str());
        let method = if chars_eq(&mc, &chars_of("GET")) || chars_eq(&mc, &chars_of("get")) {
            FormMethod::GET
        } else if chars_eq(&mc, &chars_of("POST")) || chars_eq(&mc, &chars_of("post")) {
            FormMethod::POST
        } else {
            return None;
        };
        let mut sel_chars = chars_of(selector);
        let mut suffix = chars_of(" select[name=selectedCredentialId] option");
        sel_chars.append(&mut suffix);
        let mfa_selector = string_from_chars(&sel_chars);
        let options = query_form_options(document, mfa_selector.as_str());
        let ghost ov = spec_form_options(document@, spec_mfa_selector(selector@));
        let mut mfa_devices: Vec<MFADevice> = Vec::new();
        let mut i: usize = 0;
        proof {
            assert(device_views(mfa_devices@) =~= Seq::<(Seq<char>, Seq<char>)>::empty());
        }
        while i < options.len()
            invariant
                i <= options@.len(),
                ov == options@.map_values(
                    |t: (Option<String>, Option<String>, bool)| option_views(t),
                ),
                spec_devices(ov, 0) =~= device_views(mfa_devices@) + spec_devices(ov, i as int),
            decreases options@.len() - i,
        {
            proof {
                assert(ov[i as int] == option_views(options@[i as int]));
            }
            let opt = &options[i];
            match (&opt.0, &opt.1, opt.2) {
                (Some(name), Some(id), false) => {
                    let d = MFADevice { name: name.clone(), id: id.clone() };
                    let ghost dv = (d.name@, d.id@);
                    mfa_devices.push(d);
                    proof {
                        assert(device_views(mfa_devices@) =~= device_views(
                            mfa_devices@.drop_last(),
                        ) + seq![dv]);
                    }
                },
                _ => {},
            }
            i += 1;
        }
        Some(FormInfo { method, action, mfa_devices })
    }
}

/// Extracts the value of the hidden `SAMLResponse` input of the
/// identity provider's auto-submitting form, if present.
pub fn extract_saml_response(document: &str) -> (r: Option<String>)
    ensures
        match spec_input_value(document@, ("input[name=\"SAMLResponse\"]")@) {
            Some(v) => match (v, r) {
                (Some(s), Some(out)) => out@ == s,
                (None, None) => true,
                _ => false,
            },
            None => r is None,
        },
{
    match query_input_value(document, "input[name=\"SAMLResponse\"]") {
        None => None,
        Some(v) => v,
    }
}

} // verus!
