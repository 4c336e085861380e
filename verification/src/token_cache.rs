//! Access tokens kept between runs.
use crate::text::same_text;
use vstd::prelude::*;
use vstd::string::*;

verus! {

/// Seconds for which an access token is kept. Tokens last one to two hours; ninety minutes
/// spares most requests for a new one.
pub const CACHE_TTL_SECS: u64 = 90 * 60;

/// The name of the file that the token is kept in.
pub const TOKEN_FILE: &'static str = "token.json";

/// An access token and when to stop using it.
#[derive(Debug)]
pub struct CachedToken {
    pub access_token: String,
    /// Seconds since the Unix epoch.
    pub expires_at: u64,
}

/// An access token and when to stop using it, as text and number.
pub struct TokenView {
    pub access_token: Seq<char>,
    pub expires_at: nat,
}

impl TokenView {
    pub open spec fn valid_at(self, now: nat) -> bool {
        self.expires_at > now
    }
}

impl View for CachedToken {
    type V = TokenView;

    open spec fn view(&self) -> TokenView {
        TokenView { access_token: self.access_token@, expires_at: self.expires_at as nat }
    }
}

impl DeepView for CachedToken {
    type V = TokenView;

    open spec fn deep_view(&self) -> TokenView {
        self@
    }
}

impl CachedToken {
    /// Whether the token can still be used at `now`.
    pub fn is_valid(&self, now: u64) -> (valid: bool)
        ensures
            valid == self@.valid_at(now as nat),
    {
        self.expires_at > now
    }

    /// A token that was got at `now`.
    pub fn fresh(access_token: String, now: u64) -> (token: CachedToken)
        requires
            now <= u64::MAX - CACHE_TTL_SECS,
        ensures
            token@ == (TokenView {
                access_token: access_token@,
                expires_at: (now + CACHE_TTL_SECS) as nat,
            }),
    {
        CachedToken { access_token, expires_at: now_plus_ttl(now) }
    }

    fn copied(&self) -> (token: CachedToken)
        ensures
            token@ == self@,
    {
        CachedToken { access_token: self.access_token.clone(), expires_at: self.expires_at }
    }
}

/// When a token that is got at `now` expires.
pub fn now_plus_ttl(now: u64) -> (expires_at: u64)
    requires
        now <= u64::MAX - CACHE_TTL_SECS,
    ensures
        expires_at == now + CACHE_TTL_SECS,
{
    now + CACHE_TTL_SECS
}

/// The token in memory.
#[derive(Debug)]
pub struct TokenCache {
    token: Option<CachedToken>,
}

impl View for TokenCache {
    type V = Option<TokenView>;

    closed spec fn view(&self) -> Option<TokenView> {
        self.token.deep_view()
    }
}

/// The access token that can be used at `now`, of a token that may be there.
pub open spec fn usable(token: Option<TokenView>, now: nat) -> Option<Seq<char>> {
    match token {
        Some(t) => if t.valid_at(now) {
            Some(t.access_token)
        } else {
            None
        },
        None => None,
    }
}

/// What a request for an access token does next.
#[derive(Debug)]
pub enum TokenStep {
    /// Answers with this access token.
    Use(String),
    /// Reads the file.
    ReadFile,
    /// Gets a new token, writes it to the file and keeps it in memory.
    Refresh,
}

/// What a request for an access token does next, as text.
pub enum TokenStepView {
    Use(Seq<char>),
    ReadFile,
    Refresh,
}

impl View for TokenStep {
    type V = TokenStepView;

    open spec fn view(&self) -> TokenStepView {
        match self {
            TokenStep::Use(access_token) => TokenStepView::Use(access_token@),
            TokenStep::ReadFile => TokenStepView::ReadFile,
            TokenStep::Refresh => TokenStepView::Refresh,
        }
    }
}

/// The first step of a request, with the token that is in memory.
pub open spec fn ask_step(in_memory: Option<TokenView>, now: nat) -> TokenStepView {
    match usable(in_memory, now) {
        Some(access_token) => TokenStepView::Use(access_token),
        None => TokenStepView::ReadFile,
    }
}

/// The second step of a request, with the token that was in the file.
pub open spec fn load_step(in_file: Option<TokenView>, now: nat) -> TokenStepView {
    match usable(in_file, now) {
        Some(access_token) => TokenStepView::Use(access_token),
        None => TokenStepView::Refresh,
    }
}

/// Whether the token that is kept has this access token.
pub open spec fn holds(kept: Option<TokenView>, access_token: Seq<char>) -> bool {
    kept matches Some(token) && token.access_token == access_token
}

/// What is kept once an access token has gone stale.
pub open spec fn invalidated(kept: Option<TokenView>, stale: Seq<char>) -> Option<TokenView> {
    if holds(kept, stale) {
        None
    } else {
        kept
    }
}

impl TokenCache {
    /// Nothing in memory.
    pub fn new() -> (cache: TokenCache)
        ensures
            cache@ is None,
    {
        TokenCache { token: None }
    }

    /// First step of a request at `now`: the token in memory serves where it can still be
    /// used, and else the file is read.
    pub fn ask(&self, now: u64) -> (step: TokenStep)
        ensures
            step@ == ask_step(self@, now as nat),
    {
        match &self.token {
            Some(token) => if token.is_valid(now) {
                TokenStep::Use(token.access_token.clone())
            } else {
                TokenStep::ReadFile
            },
            None => TokenStep::ReadFile,
        }
    }

    /// Second step of a request, with what the file held and at the time `now` of reading
    /// it: a token that can be used comes into memory and serves, and else a new one is
    /// got.
    pub fn load(&mut self, read: Option<CachedToken>, now: u64) -> (step: TokenStep)
        ensures
            step@ == load_step(read.deep_view(), now as nat),
            final(self)@ == (if step is Use {
                read.deep_view()
            } else {
                old(self)@
            }),
    {
        match read {
            Some(token) => if token.is_valid(now) {
                let access_token: String = token.access_token.clone();
                self.token = Some(token);
                TokenStep::Use(access_token)
            } else {
                TokenStep::Refresh
            },
            None => TokenStep::Refresh,
        }
    }

    /// Keeps a token in memory.
    pub fn store(&mut self, token: &CachedToken)
        ensures
            final(self)@ == Some(token@),
    {
        self.token = Some(token.copied());
    }

    /// Forgets the token in memory if it is the one that went stale, and tells whether the
    /// file is to be removed too.
    pub fn invalidate(&mut self, stale_token: &str) -> (removed: bool)
        ensures
            removed == holds(old(self)@, stale_token@),
            final(self)@ == invalidated(old(self)@, stale_token@),
    {
        let stale: bool = match &self.token {
            Some(token) => same_text(token.access_token.as_str(), stale_token),
            None => false,
        };
        if stale {
            self.token = None;
        }
        stale
    }
}

/// Where the cache directory starts from.
#[derive(Clone, Copy, Debug, PartialEq, Eq, Structural)]
pub enum CacheBase {
    /// The home directory.
    Home,
    /// The Windows user profile.
    UserProfile,
    /// The directory for temporary files.
    Temporary,
}

/// The cache directory: a directory to start from and the way down from there.
#[derive(Debug)]
pub struct CacheDir {
    pub base: CacheBase,
    pub components: Vec<String>,
}

/// The directory that the cache starts from.
pub open spec fn cache_base(has_home: bool, has_user_profile: bool) -> CacheBase {
    if has_home {
        CacheBase::Home
    } else if has_user_profile {
        CacheBase::UserProfile
    } else {
        CacheBase::Temporary
    }
}

/// The way from the directory that the cache starts from to the cache.
pub open spec fn cache_components(base: CacheBase) -> Seq<Seq<char>> {
    match base {
        CacheBase::Home => seq![".cache"@, "justice-link"@],
        CacheBase::UserProfile => seq!["AppData"@, "Local"@, "justice-link"@, "cache"@],
        CacheBase::Temporary => seq!["justice-link"@],
    }
}

/// Decides where the cache is kept: under the home directory where one is known, else under
/// the user profile, else with the temporary files.
pub fn cache_dir(has_home: bool, has_user_profile: bool) -> (dir: CacheDir)
    ensures
        dir.base == cache_base(has_home, has_user_profile),
        dir.components.deep_view() == cache_components(dir.base),
{
    let mut components: Vec<String> = Vec::new();
    let base: CacheBase = if has_home {
        components.push(".cache".to_owned());
        components.push("justice-link".to_owned());
        CacheBase::Home
    } else if has_user_profile {
        components.push("AppData".to_owned());
        components.push("Local".to_owned());
        components.push("justice-link".to_owned());
        components.push("cache".to_owned());
        CacheBase::UserProfile
    } else {
        components.push("justice-link".to_owned());
        CacheBase::Temporary
    };
    assert(components.deep_view() =~= cache_components(base));
    CacheDir { base, components }
}

/// A new token is got only where neither the memory nor the file holds one that can still
/// be used.
pub proof fn law_refresh_only_without_usable_token(
    in_memory: Option<TokenView>,
    in_file: Option<TokenView>,
    asked: nat,
    read: nat,
)
    ensures
        ask_step(in_memory, asked) is Use <==> usable(in_memory, asked) is Some,
        ask_step(in_memory, asked) is Use || ask_step(in_memory, asked) is ReadFile,
        load_step(in_file, read) is Refresh <==> usable(in_file, read) is None,
        load_step(in_file, read) is Use || load_step(in_file, read) is Refresh,
{
}

/// An access token that went stale is not handed out from memory again, and one that is not
/// the stale one stays.
pub proof fn law_stale_token_is_forgotten(kept: Option<TokenView>, stale: Seq<char>, now: nat)
    ensures
        ask_step(invalidated(kept, stale), now) != TokenStepView::Use(stale),
        !holds(kept, stale) ==> invalidated(kept, stale) == kept,
{
}

/// An expired token is never handed out, from memory or from the file.
pub proof fn law_expired_token_is_not_used(token: TokenView, now: nat)
    requires
        token.expires_at <= now,
    ensures
        !(ask_step(Some(token), now) is Use),
        !(load_step(Some(token), now) is Use),
{
}

/// A token that was got at `got` serves every request, from memory and from the file, until
/// its ninety minutes are over, and none after that.
pub proof fn law_fresh_token_serves(access_token: Seq<char>, got: nat, now: nat)
    ensures
        ({
            let kept = Some(
                TokenView { access_token, expires_at: got + CACHE_TTL_SECS as nat },
            );
            let over = now >= got + 5400;
            &&& ask_step(kept, now) == (if over {
                TokenStepView::ReadFile
            } else {
                TokenStepView::Use(access_token)
            })
            &&& load_step(kept, now) == (if over {
                TokenStepView::Refresh
            } else {
                TokenStepView::Use(access_token)
            })
        }),
{
}

/// A token is handed out, from memory and from the file, exactly as long as its time is not
/// over, and where there is none the next place is asked.
pub proof fn law_token_serves_until_its_time(token: TokenView, now: nat)
    ensures
        token.expires_at > now ==> ask_step(Some(token), now) == TokenStepView::Use(
            token.access_token,
        ) && load_step(Some(token), now) == TokenStepView::Use(token.access_token),
        token.expires_at <= now ==> ask_step(Some(token), now) is ReadFile && load_step(
            Some(token),
            now,
        ) is Refresh,
        ask_step(None, now) is ReadFile,
        load_step(None, now) is Refresh,
{
}

/// What is forgotten is the token that went stale, and that alone: any other is kept, and
/// the file stays.
pub proof fn law_only_the_stale_token_is_forgotten(token: TokenView, stale: Seq<char>)
    ensures
        token.access_token == stale ==> holds(Some(token), stale) && invalidated(
            Some(token),
            stale,
        ) is None,
        token.access_token != stale ==> !holds(Some(token), stale) && invalidated(
            Some(token),
            stale,
        ) == Some(token),
        !holds(None, stale),
        invalidated(None, stale) is None,
{
}

/// The cache lies under the home directory where there is one, whatever the user profile,
/// else under the user profile, and else with the temporary files.
pub proof fn law_cache_lies_under_home(has_home: bool, has_user_profile: bool)
    ensures
        has_home ==> cache_base(has_home, has_user_profile) == CacheBase::Home,
        !has_home && has_user_profile ==> cache_base(has_home, has_user_profile)
            == CacheBase::UserProfile,
        !has_home && !has_user_profile ==> cache_base(has_home, has_user_profile)
            == CacheBase::Temporary,
        cache_components(CacheBase::Home) == seq![".cache"@, "justice-link"@],
        cache_components(CacheBase::UserProfile) == seq![
            "AppData"@,
            "Local"@,
            "justice-link"@,
            "cache"@,
        ],
        cache_components(CacheBase::Temporary) == seq!["justice-link"@],
        TOKEN_FILE@ == "token.json"@,
{
}

} // verus!
