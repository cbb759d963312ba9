//! What the first start prepares: the application's folders under the user's
//! home, and the self-signed certificate that the local TLS service needs.

use vstd::prelude::*;

verus! {

/// The application's folder under the home folder `home`.
pub open spec fn app_folder(home: Seq<char>) -> Seq<char> {
    home + "/.local/share/com.kemolumi.thucra"@
}

/// The application's paths, all under `app_folder`.
pub struct AppPaths {
    /// The application's folder.
    pub app_folder: String,
    /// The folder of the daily log files.
    pub log_dir: String,
    /// The folder of the TLS key and certificate.
    pub certs_dir: String,
    /// The TLS private key, in PEM.
    pub key_file: String,
    /// The TLS certificate, in PEM.
    pub cert_file: String,
}

/// The `openssl` arguments that make a self-signed certificate for
/// `localhost` (and 127.0.0.1), valid for ten years, with a new unencrypted
/// RSA 4096 key written to `key` and the certificate to `cert`.
pub open spec fn openssl_req_args(key: Seq<char>, cert: Seq<char>) -> Seq<Seq<char>> {
    seq![
        "req"@,
        "-x509"@,
        "-newkey"@,
        "rsa:4096"@,
        "-sha256"@,
        "-days"@,
        "3650"@,
        "-nodes"@,
        "-keyout"@,
        key,
        "-out"@,
        cert,
        "-subj"@,
        "/CN=localhost"@,
        "-addext"@,
        "subjectAltName=DNS:localhost,IP:127.0.0.1"@,
    ]
}

/// What the start does about the TLS store.
#[derive(Debug, Clone, Copy, PartialEq, Eq, Structural)]
pub enum StoreStep {
    /// Both files are there: use them.
    Ready,
    /// A file is missing: make a new key and certificate.
    Generate,
}

/// Appends `s` to a copy of `base`.
fn joined(base: &str, s: &str) -> (res: String)
    ensures
        res@ == base@ + s@,
{
    let mut out = String::from_str(base);
    out.append(s);
    out
}

/// Pushes a copy of `s` onto `v`.
fn push_arg(v: &mut Vec<String>, s: &str)
    ensures
        final(v)@.len() == old(v)@.len() + 1,
        forall|i: int| 0 <= i < old(v)@.len() ==> final(v)@[i] == old(v)@[i],
        final(v)@[old(v)@.len() as int]@ == s@,
{
    v.push(String::from_str(s));
}

impl AppPaths {
    /// The paths of the application for the home folder `home`.
    pub fn from_home(home: &str) -> (res: AppPaths)
        ensures
            res.app_folder@ == app_folder(home@),
            res.log_dir@ == app_folder(home@) + "/logs"@,
            res.certs_dir@ == app_folder(home@) + "/certs"@,
            res.key_file@ == app_folder(home@) + "/certs/key.pem"@,
            res.cert_file@ == app_folder(home@) + "/certs/cert.pem"@,
    {
        let app_folder = joined(home, "/.local/share/com.kemolumi.thucra");
        let log_dir = joined(app_folder.as_str(), "/logs");
        let certs_dir = joined(app_folder.as_str(), "/certs");
        let key_file = joined(app_folder.as_str(), "/certs/key.pem");
        let cert_file = joined(app_folder.as_str(), "/certs/cert.pem");
        AppPaths { app_folder, log_dir, certs_dir, key_file, cert_file }
    }

    /// The arguments of `openssl` that make the TLS key and certificate at
    /// these paths.
    pub fn openssl_args(&self) -> (res: Vec<String>)
        ensures
            res@.len() == 16,
            forall|i: int| 0 <= i < 16 ==> #[trigger] res@[i]@ == openssl_req_args(
                self.key_file@,
                self.cert_file@,
            )[i],
    {
        let mut v: Vec<String> = Vec::new();
        push_arg(&mut v, "req");
        push_arg(&mut v, "-x509");
        push_arg(&mut v, "-newkey");
        push_arg(&mut v, "rsa:4096");
        push_arg(&mut v, "-sha256");
        push_arg(&mut v, "-days");
        push_arg(&mut v, "3650");
        push_arg(&mut v, "-nodes");
        push_arg(&mut v, "-keyout");
        push_arg(&mut v, self.key_file.as_str());
        push_arg(&mut v, "-out");
        push_arg(&mut v, self.cert_file.as_str());
        push_arg(&mut v, "-subj");
        push_arg(&mut v, "/CN=localhost");
        push_arg(&mut v, "-addext");
        push_arg(&mut v, "subjectAltName=DNS:localhost,IP:127.0.0.1");
        v
    }
}

/// Whether the start can use the TLS store as it is: only where both the
/// key and the certificate are there.
pub fn store_step(key_exists: bool, cert_exists: bool) -> (res: StoreStep)
    ensures
        res == (if key_exists && cert_exists {
            StoreStep::Ready
        } else {
            StoreStep::Generate
        }),
{
    if key_exists && cert_exists {
        StoreStep::Ready
    } else {
        StoreStep::Generate
    }
}

/// How the start ends after it ran `openssl` to make a new store: `run` is
/// `None` where `openssl` could not be run, else whether it exited with
/// success. The start succeeds only on a successful exit.
pub fn generation_outcome(run: Option<bool>) -> (res: Result<(), ()>)
    ensures
        res is Ok <==> run == Some(true),
{
    match run {
        Some(true) => Ok(()),
        _ => Err(()),
    }
}

} // verus!
