//! Configuration decisions of the command-line tool: which proving backend to configure and
//! whether to check its health first.
use vstd::prelude::*;

verus! {

/// Configuration of the proving backend.
pub struct ProverConfig {
    /// URL at which the Bento cluster runs.
    pub bento_api_url: String,
    /// API key of the Bento cluster; not needed without authentication.
    pub bento_api_key: Option<String>,
    /// Use the zkVM's default prover instead of Bento.
    pub use_default_prover: bool,
    /// Skip the health check of the prover.
    pub skip_health_check: bool,
}

/// The default Bento API URL.
pub open spec fn default_bento_api_url() -> Seq<char> {
    "http://localhost:8081"@
}

impl ProverConfig {
    /// The values of the API URL and API key variables that configure the default prover to
    /// use Bento (an empty key where none is set), or `None` where the default prover keeps
    /// its own configuration.
    pub fn backend_env(&self) -> (r: Option<(String, String)>)
        ensures
            self.use_default_prover ==> r is None,
            !self.use_default_prover ==> (r matches Some((url, key)) && url@ == self.bento_api_url@
                && key@ == match self.bento_api_key {
                Some(k) => k@,
                None => Seq::<char>::empty(),
            }),
    {
        if self.use_default_prover {
            return None;
        }
        let key = match &self.bento_api_key {
            Some(k) => k.clone(),
            None => String::new(),
        };
        Some((self.bento_api_url.clone(), key))
    }

    /// Whether a health check of Bento runs: not with the default prover, not when skipped,
    /// and not in the zkVM's dev mode.
    pub fn needs_health_check(&self, dev_mode: bool) -> (r: bool)
        ensures
            r == !(self.use_default_prover || self.skip_health_check || dev_mode),
    {
        !(self.use_default_prover || self.skip_health_check || dev_mode)
    }

    /// Whether the configured URL is the default one (a failed health check then suggests the
    /// default prover).
    pub fn uses_default_url(&self) -> (r: bool)
        ensures
            r == (self.bento_api_url@ == default_bento_api_url()),
    {
        let default_url = "http://localhost:8081".to_owned();
        self.bento_api_url == default_url
    }
}

/// Commands for Proof of Verifiable Work operations, each with its arguments.
pub enum PovwCommands<P, S, C> {
    /// Compress work receipts into a work log update.
    ProveUpdate(P),
    /// Send a work log update to the onchain accounting contract.
    SendUpdate(S),
    /// Claim the rewards of submitted updates in past epochs.
    ClaimReward(C),
}

} // verus!
