//! Configuration, and what holds where it says nothing.

use vstd::prelude::*;

verus! {

/// The configuration.
#[derive(Debug)]
pub struct AppConfig {
    /// Where the server listens.
    pub server: ServerConfig,
    /// Where the database lies.
    pub database: DatabaseConfig,
    /// Which LLM is asked.
    pub llm: LlmConfig,
    /// Where the clones lie.
    pub github: GitHubConfig,
    /// Who may use the API.
    pub auth: AuthConfig,
    /// When things are done.
    pub scheduler: SchedulerConfig,
}

/// Where the server listens.
#[derive(Debug)]
pub struct ServerConfig {
    /// The host.
    pub host: String,
    /// The port.
    pub port: u16,
}

/// The host, unless configured.
pub fn default_host() -> (r: String)
    ensures
        r@ == "127.0.0.1"@,
{
    "127.0.0.1".to_owned()
}

/// The port, unless configured.
pub fn default_port() -> (r: u16)
    ensures
        r == 3000,
{
    3000
}

impl Default for ServerConfig {
    fn default() -> (r: ServerConfig)
        ensures
            r.host@ == "127.0.0.1"@,
            r.port == 3000,
    {
        ServerConfig { host: default_host(), port: default_port() }
    }
}

impl ServerConfig {
    /// The address to listen on.
    pub fn address(&self) -> (r: String)
        ensures
            r@ == self.host@ + ":"@ + crate::text::decimal(self.port as nat),
    {
        let mut out = self.host.clone();
        out.push_str(":");
        out.push_str(crate::text::format_u64(self.port as u64).as_str());
        out
    }
}

/// Where the database lies.
#[derive(Debug)]
pub struct DatabaseConfig {
    /// The file.
    pub path: String,
}

/// The file of the database, unless configured.
pub fn default_db_path() -> (r: String)
    ensures
        r@ == "panopticon.db"@,
{
    "panopticon.db".to_owned()
}

impl Default for DatabaseConfig {
    fn default() -> (r: DatabaseConfig)
        ensures
            r.path@ == "panopticon.db"@,
    {
        DatabaseConfig { path: default_db_path() }
    }
}

impl DatabaseConfig {
    /// The URL of the database, which is made where it is missing.
    pub fn url(&self) -> (r: String)
        ensures
            r@ == "sqlite:"@ + self.path@ + "?mode=rwc"@,
    {
        let mut out: String = "sqlite:".to_owned();
        out.push_str(self.path.as_str());
        out.push_str("?mode=rwc");
        out
    }
}

/// Which LLM is asked.
#[derive(Debug)]
pub struct LlmConfig {
    /// The provider.
    pub provider: LlmProviderConfig,
}

/// An LLM provider and its settings.
#[derive(Debug)]
pub enum LlmProviderConfig {
    /// OpenAI.
    OpenAi {
        /// The API key.
        api_key: String,
        /// The model.
        model: String,
        /// Where the API is found, unless in its usual place.
        base_url: Option<String>,
        /// How hard to think.
        reasoning_effort: String,
        /// The context length in tokens, unless the usual one.
        context_limit_tokens: Option<u32>,
    },
}

/// The OpenAI model, unless configured.
pub fn default_openai_model() -> (r: String)
    ensures
        r@ == "gpt-5.2-2025-12-11"@,
{
    "gpt-5.2-2025-12-11".to_owned()
}

/// The reasoning effort, unless configured.
pub fn default_reasoning_effort() -> (r: String)
    ensures
        r@ == "high"@,
{
    "high".to_owned()
}

/// Where the clones lie.
#[derive(Debug)]
pub struct GitHubConfig {
    /// The directory.
    pub repos_dir: String,
}

/// The directory of the clones, unless configured.
pub fn default_repos_dir() -> (r: String)
    ensures
        r@ == "./repos"@,
{
    "./repos".to_owned()
}

impl Default for GitHubConfig {
    fn default() -> (r: GitHubConfig)
        ensures
            r.repos_dir@ == "./repos"@,
    {
        GitHubConfig { repos_dir: default_repos_dir() }
    }
}

/// Who may use the API.
#[derive(Debug)]
pub struct AuthConfig {
    /// The key.
    pub api_key: String,
}

/// When things are done.
#[derive(Debug, Clone, Copy, PartialEq, Eq, Structural)]
pub struct SchedulerConfig {
    /// How often the queue is looked at, in seconds.
    pub poll_interval_secs: u64,
    /// How often a repository is reviewed, in hours.
    pub review_interval_hours: u64,
    /// Jobs without a sign of life for longer than this are considered stuck and will be
    /// reclaimed. This handles process crashes leaving jobs in 'running' state.
    pub job_timeout_minutes: u64,
    /// How many jobs run at the same time.
    pub max_concurrent_jobs: usize,
    /// How long git may take, in seconds.
    pub git_timeout_secs: u64,
    /// How long a request to the LLM may take, in seconds.
    pub llm_timeout_secs: u64,
    /// How often a running job gives a sign of life, in seconds.
    pub heartbeat_interval_secs: u64,
}

/// How often the queue is looked at, unless configured.
pub fn default_poll_interval() -> (r: u64)
    ensures
        r == 60,
{
    60
}

/// How often a repository is reviewed, unless configured.
pub fn default_review_interval() -> (r: u64)
    ensures
        r == 24,
{
    24
}

/// When a job counts as stuck, unless configured.
pub fn default_job_timeout() -> (r: u64)
    ensures
        r == 30,
{
    30
}

/// How many jobs run at the same time, unless configured.
pub fn default_max_concurrent_jobs() -> (r: usize)
    ensures
        r == 2,
{
    2
}

/// How long git may take, unless configured.
pub fn default_git_timeout() -> (r: u64)
    ensures
        r == 300,
{
    300
}

/// How long a request to the LLM may take, unless configured.
pub fn default_llm_timeout() -> (r: u64)
    ensures
        r == crate::llm::openai::DEFAULT_REQUEST_TIMEOUT_SECS,
{
    crate::llm::openai::DEFAULT_REQUEST_TIMEOUT_SECS
}

/// How often a running job gives a sign of life, unless configured.
pub fn default_heartbeat_interval() -> (r: u64)
    ensures
        r == 30,
{
    30
}

impl Default for SchedulerConfig {
    fn default() -> (r: SchedulerConfig)
        ensures
            r == (SchedulerConfig {
                poll_interval_secs: 60,
                review_interval_hours: 24,
                job_timeout_minutes: 30,
                max_concurrent_jobs: 2,
                git_timeout_secs: 300,
                llm_timeout_secs: 600,
                heartbeat_interval_secs: 30,
            }),
    {
        SchedulerConfig {
            poll_interval_secs: default_poll_interval(),
            review_interval_hours: default_review_interval(),
            job_timeout_minutes: default_job_timeout(),
            max_concurrent_jobs: default_max_concurrent_jobs(),
            git_timeout_secs: default_git_timeout(),
            llm_timeout_secs: default_llm_timeout(),
            heartbeat_interval_secs: default_heartbeat_interval(),
        }
    }
}

} // verus!
