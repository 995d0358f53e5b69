use vstd::prelude::*;

use qrcode::render::svg;
use qrcode::QrCode;

use crate::strutil::{chars_eq_str, chars_to_string, chars_vec, push_str_chars, spec_dec_nat};

verus! {

broadcast use vstd::seq::group_seq_axioms;

// ---------------------------------------------------------------------------
// Connection QR codes
//
// The desktop shows the companion client two QR codes: the connection URL
// and the shared token.
// ---------------------------------------------------------------------------

/// What the connection QR request yields: the URL, its QR image, and the
/// token's QR image, both as SVG text.
#[derive(Debug, Clone)]
pub struct QrCodeResult {
    pub url: String,
    pub svg: String,
    pub token_svg: String,
}

/// The SVG rendering of a QR code for the given text: a function of the
/// text alone.
pub uninterp spec fn qr_svg_of(data: Seq<char>) -> Seq<char>;

/// Relies on the qrcode crate: encodes the text and renders it as an SVG
/// at least 200 pixels square; rendering is deterministic in the text.
/// Encoding fails only when the text exceeds QR capacity.
#[verifier::external_body]
fn generate_qr_svg(data: &str) -> (r: Result<String, String>)
    ensures
        r matches Ok(s) ==> s@ == qr_svg_of(data@),
{
    let code = match QrCode::new(data) {
        Ok(c) => c,
        Err(e) => return Err(format!("QR encoding failed: {e}")),
    };
    let rendered = code
        .render::<svg::Color>()
        .min_dimensions(200, 200)
        .dark_color(svg::Color("#e0e0e0"))
        .light_color(svg::Color("#1a1a1a"))
        .build();
    Ok(rendered)
}

/// The address the URL points at, for a configured bind value: loopback
/// names map to loopback, mesh names need the detected address, the
/// wildcard falls back to loopback when nothing was detected, and anything
/// else is used as given.
pub open spec fn spec_url_host(bind: Seq<char>, vpn_ip: Option<Seq<char>>) -> Option<Seq<char>> {
    if bind == "127.0.0.1"@ || bind == "localhost"@ {
        Option::Some("127.0.0.1"@)
    } else if bind == "meshnet"@ || bind == "mesh_vpn"@ {
        vpn_ip
    } else if bind == "any"@ || bind == "0.0.0.0"@ {
        match vpn_ip {
            Option::Some(ip) => Option::Some(ip),
            Option::None => Option::Some("127.0.0.1"@),
        }
    } else {
        Option::Some(bind)
    }
}

/// The connection URL: scheme by TLS, then host and port.
pub open spec fn spec_connection_url(
    bind: Seq<char>,
    port: u16,
    tls_enabled: bool,
    vpn_ip: Option<Seq<char>>,
) -> Option<Seq<char>> {
    match spec_url_host(bind, vpn_ip) {
        Option::Some(host) => Option::Some(
            (if tls_enabled {
                "https://"@
            } else {
                "http://"@
            }) + host + ":"@ + spec_dec_nat(port as nat),
        ),
        Option::None => Option::None,
    }
}

/// Builds the URL the companion client connects to.  `vpn_ip` is the
/// detected mesh address, when there is one; binds that need it fail
/// without it.
pub fn build_connection_url(bind: &str, port: u16, tls_enabled: bool, vpn_ip: Option<&str>) -> (r:
    Result<String, String>)
    ensures
        match spec_connection_url(
            bind@,
            port,
            tls_enabled,
            match vpn_ip {
                Option::Some(ip) => Option::Some(ip@),
                Option::None => Option::None,
            },
        ) {
            Option::Some(url) => (r matches Ok(u) && u@ == url),
            Option::None => r is Err,
        },
{
    let bv = chars_vec(bind);
    let host: String = if chars_eq_str(&bv, "127.0.0.1") || chars_eq_str(&bv, "localhost") {
        "127.0.0.1".to_owned()
    } else if chars_eq_str(&bv, "meshnet") || chars_eq_str(&bv, "mesh_vpn") {
        match vpn_ip {
            Option::Some(ip) => ip.to_owned(),
            Option::None => {
                return Result::Err("no mesh VPN was found".to_owned());
            },
        }
    } else if chars_eq_str(&bv, "any") || chars_eq_str(&bv, "0.0.0.0") {
        match vpn_ip {
            Option::Some(ip) => ip.to_owned(),
            Option::None => "127.0.0.1".to_owned(),
        }
    } else {
        chars_to_string(&bv)
    };
    let mut out: Vec<char> = Vec::new();
    if tls_enabled {
        push_str_chars(&mut out, "https://");
    } else {
        push_str_chars(&mut out, "http://");
    }
    push_str_chars(&mut out, host.as_str());
    push_str_chars(&mut out, ":");
    crate::strutil::push_u64(&mut out, port as u64);
    let url = chars_to_string(&out);
    Result::Ok(url)
}

/// Builds the full QR bundle for the current settings.
pub fn get_connection_qr(
    bind: &str,
    port: u16,
    tls_enabled: bool,
    vpn_ip: Option<&str>,
    token: &str,
) -> (r: Result<QrCodeResult, String>)
    ensures
        r matches Ok(q) ==> {
            &&& spec_connection_url(
                bind@,
                port,
                tls_enabled,
                match vpn_ip {
                    Option::Some(ip) => Option::Some(ip@),
                    Option::None => Option::None,
                },
            ) matches Some(url) && q.url@ == url && q.svg@ == qr_svg_of(url)
            &&& q.token_svg@ == qr_svg_of(token@)
        },
{
    let url = match build_connection_url(bind, port, tls_enabled, vpn_ip) {
        Result::Ok(u) => u,
        Result::Err(e) => {
            return Result::Err(e);
        },
    };
    let svg_img = match generate_qr_svg(url.as_str()) {
        Result::Ok(s) => s,
        Result::Err(e) => {
            return Result::Err(e);
        },
    };
    let token_svg = match generate_qr_svg(token) {
        Result::Ok(s) => s,
        Result::Err(e) => {
            return Result::Err(e);
        },
    };
    Result::Ok(QrCodeResult { url, svg: svg_img, token_svg })
}

} // verus!
