//! TLS settings for database connections.
use vstd::prelude::*;

verus! {

/// Whether to verify the server's certificate, and with which authority.
#[derive(Debug, Clone)]
pub struct SslConfig {
    /// Path of a custom certificate-authority file, if any.
    pub ca_cert_path: Option<String>,
    /// Whether peer certificates are verified.
    pub verify_peer: bool,
    /// The prefix of the variables the settings came from (`HOMEBREW`, `COMBO`).
    pub env_prefix: String,
}

impl SslConfig {
    /// The settings from the values of `{prefix}_DEV_MODE`,
    /// `{prefix}_SSL_VERIFY_PEER` and `{prefix}_CA_CERT_PATH`: peers are
    /// verified when the verify setting says `true`, and, without such a
    /// setting, unless development mode is on (`true`).
    pub fn from_settings(
        env_prefix: &str,
        dev_mode: Option<String>,
        verify_setting: Option<String>,
        ca_cert_path: Option<String>,
    ) -> (r: Self)
        ensures
            r.env_prefix@ == env_prefix@,
            r.ca_cert_path == ca_cert_path,
            verify_setting matches Some(v) ==> r.verify_peer == (v@ == "true"@),
            verify_setting is None ==> r.verify_peer == !(dev_mode matches Some(d) && d@ == "true"@),
    {
        let truth = String::from_str("true");
        let is_dev_mode = match &dev_mode {
            Some(d) => *d == truth,
            None => false,
        };
        let verify_peer = match &verify_setting {
            Some(v) => *v == truth,
            None => !is_dev_mode,
        };
        SslConfig { ca_cert_path, verify_peer, env_prefix: String::from_str(env_prefix) }
    }

    /// The `sslmode` of a PostgreSQL connection string: `require` when
    /// peers are verified, else `prefer`.
    pub fn get_sslmode(&self) -> (r: &'static str)
        ensures
            self.verify_peer ==> r@ == "require"@,
            !self.verify_peer ==> r@ == "prefer"@,
    {
        if self.verify_peer {
            "require"
        } else {
            "prefer"
        }
    }
}

} // verus!
