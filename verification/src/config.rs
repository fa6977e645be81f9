//! Configuration: the server address, the signing secret, the callback
//! prefix, and the registry of named providers. The registry is an
//! association list whose names are unique; resolving a name finds its
//! first entry.

use vstd::prelude::*;
use vstd::string::*;
use crate::model::{OAuthProviderType, ProviderTypeView};
use crate::text::str_eq;

verus! {

/// The default for a provider's enabled flag.
pub fn default_true() -> (r: bool)
    ensures
        r,
{
    true
}

/// One named provider's settings.
#[derive(Debug, Clone)]
pub struct OAuthProviderConfig {
    pub provider_type: OAuthProviderType,
    pub client_id: String,
    pub client_secret: String,
    pub enabled: bool,
    pub scopes: Vec<String>,
}

/// Where the server listens.
#[derive(Debug, Clone)]
pub struct ServerConfig {
    pub host: String,
    pub port: u16,
}

/// The authentication settings: the URL prefix that callback URLs are
/// built under, the process-wide signing secret, and the providers by
/// name.
#[derive(Debug, Clone)]
pub struct OAuthProvidersConfig {
    pub prefix_url: String,
    pub secret_string: String,
    pub providers: Vec<(String, OAuthProviderConfig)>,
}

/// The whole configuration.
#[derive(Debug, Clone)]
pub struct Config {
    pub server: ServerConfig,
    pub oauth: OAuthProvidersConfig,
}

/// The first entry of `s` named `name`, if any.
pub open spec fn lookup_provider(
    s: Seq<(String, OAuthProviderConfig)>,
    name: Seq<char>,
) -> Option<OAuthProviderConfig>
    decreases s.len(),
{
    if s.len() == 0 {
        Option::None
    } else if s[0].0@ == name {
        Option::Some(s[0].1)
    } else {
        lookup_provider(s.drop_first(), name)
    }
}

/// Name uniqueness: the invariant of the registry.
pub open spec fn unique_names(s: Seq<(String, OAuthProviderConfig)>) -> bool {
    forall|i: int, j: int| 0 <= i < j < s.len() ==> s[i].0@ != s[j].0@
}

/// Entries whose names were all passed over do not affect the lookup.
proof fn lemma_lookup_skip(s: Seq<(String, OAuthProviderConfig)>, name: Seq<char>, i: int)
    requires
        0 <= i <= s.len(),
        forall|j: int| 0 <= j < i ==> s[j].0@ != name,
    ensures
        lookup_provider(s, name) == lookup_provider(s.skip(i), name),
    decreases i,
{
    if i > 0 {
        assert(s[0].0@ != name);
        assert forall|j: int| 0 <= j < i - 1 implies s.drop_first()[j].0@ != name by {
            assert(s.drop_first()[j] == s[j + 1]);
        }
        lemma_lookup_skip(s.drop_first(), name, i - 1);
        assert(s.drop_first().skip(i - 1) =~= s.skip(i));
    } else {
        assert(s.skip(0) =~= s);
    }
}

/// The entries whose providers are enabled, in order.
pub open spec fn enabled_entries(
    s: Seq<(String, OAuthProviderConfig)>,
) -> Seq<(String, OAuthProviderConfig)>
    decreases s.len(),
{
    if s.len() == 0 {
        Seq::<(String, OAuthProviderConfig)>::empty()
    } else {
        let rest = enabled_entries(s.drop_first());
        if s[0].1.enabled {
            seq![s[0]] + rest
        } else {
            rest
        }
    }
}

/// One more entry extends the enabled run by itself or not at all.
proof fn lemma_enabled_entries_snoc(
    s: Seq<(String, OAuthProviderConfig)>,
    x: (String, OAuthProviderConfig),
)
    ensures
        enabled_entries(s.push(x)) == if x.1.enabled {
            enabled_entries(s) + seq![x]
        } else {
            enabled_entries(s)
        },
    decreases s.len(),
{
    let w = s.push(x);
    if s.len() == 0 {
        assert(w[0] == x);
        assert(w.drop_first() =~= Seq::<(String, OAuthProviderConfig)>::empty());
        assert(enabled_entries(w.drop_first()) == Seq::<(String, OAuthProviderConfig)>::empty());
        if x.1.enabled {
            assert(enabled_entries(w) == seq![x] + Seq::<(String, OAuthProviderConfig)>::empty());
            assert(seq![x] + Seq::<(String, OAuthProviderConfig)>::empty() =~= enabled_entries(s)
                + seq![x]);
        } else {
            assert(enabled_entries(w) =~= enabled_entries(s));
        }
    } else {
        assert(w.drop_first() =~= s.drop_first().push(x));
        lemma_enabled_entries_snoc(s.drop_first(), x);
        assert(w[0] == s[0]);
        assert(w.len() == s.len() + 1);
        if s[0].1.enabled {
            if x.1.enabled {
                assert(enabled_entries(w) == seq![s[0]] + (enabled_entries(s.drop_first())
                    + seq![x]));
                assert(seq![s[0]] + (enabled_entries(s.drop_first()) + seq![x]) =~= (seq![s[0]]
                    + enabled_entries(s.drop_first())) + seq![x]);
            } else {
                assert(enabled_entries(w) == seq![s[0]] + enabled_entries(s.drop_first()));
            }
        }
    }
}

/// The callback URL registered for a named provider.
pub open spec fn redirect_uri_spec(prefix: Seq<char>, provider: Seq<char>) -> Seq<char> {
    prefix + "/api/oauth/"@ + provider + "/callback"@
}

impl Config {
    /// The callback URL for `provider`, under the configured prefix.
    pub fn get_redirect_uri(&self, provider: &str) -> (r: String)
        ensures
            r@ == redirect_uri_spec(self.oauth.prefix_url@, provider@),
    {
        let mut r = self.oauth.prefix_url.clone();
        r.append("/api/oauth/");
        r.append(provider);
        r.append("/callback");
        r
    }

    /// Resolves a provider by name, or reports that none has it.
    pub fn get_provider(&self, name: &str) -> (r: Option<&OAuthProviderConfig>)
        ensures
            match r {
                Option::Some(c) => lookup_provider(self.oauth.providers@, name@)
                    == Option::Some(*c),
                Option::None => lookup_provider(self.oauth.providers@, name@) is None,
            },
    {
        let n = self.oauth.providers.len();
        let mut i: usize = 0;
        while i < n
            invariant
                i <= n,
                n == self.oauth.providers@.len(),
                forall|j: int| 0 <= j < i ==> self.oauth.providers@[j].0@ != name@,
            decreases n - i,
        {
            let entry = &self.oauth.providers[i];
            if str_eq(entry.0.as_str(), name) {
                proof {
                    lemma_lookup_skip(self.oauth.providers@, name@, i as int);
                    let ps = self.oauth.providers@;
                    assert(ps.skip(i as int)[0] == ps[i as int]);
                }
                return Some(&entry.1);
            }
            i = i + 1;
        }
        proof {
            lemma_lookup_skip(self.oauth.providers@, name@, n as int);
            assert(self.oauth.providers@.skip(n as int) =~= Seq::<(
                String,
                OAuthProviderConfig,
            )>::empty());
        }
        None
    }

    /// All enabled providers, each with its name, in configuration order.
    pub fn get_enabled_providers(&self) -> (r: Vec<(String, &OAuthProviderConfig)>)
        ensures
            ({
                let want = enabled_entries(self.oauth.providers@);
                &&& r@.len() == want.len()
                &&& forall|i: int|
                    #![trigger r@[i]]
                    0 <= i < r@.len() ==> r@[i].0@ == want[i].0@ && *r@[i].1 == want[i].1
            }),
    {
        let n = self.oauth.providers.len();
        let mut r: Vec<(String, &OAuthProviderConfig)> = Vec::new();
        let mut i: usize = 0;
        while i < n
            invariant
                i <= n,
                n == self.oauth.providers@.len(),
                ({
                    let want = enabled_entries(self.oauth.providers@.subrange(0, i as int));
                    &&& r@.len() == want.len()
                    &&& forall|j: int|
                        #![trigger r@[j]]
                        0 <= j < r@.len() ==> r@[j].0@ == want[j].0@ && *r@[j].1 == want[j].1
                }),
            decreases n - i,
        {
            let entry = &self.oauth.providers[i];
            let ghost pre = self.oauth.providers@.subrange(0, i as int);
            let ghost cur = self.oauth.providers@[i as int];
            let ghost r_old = r@;
            proof {
                assert(self.oauth.providers@.subrange(0, i + 1 as int) =~= pre.push(cur));
                lemma_enabled_entries_snoc(pre, cur);
            }
            if entry.1.enabled {
                r.push((entry.0.clone(), &entry.1));
                proof {
                    let want = enabled_entries(pre) + seq![cur];
                    assert(r@ == r_old.push(r@[r@.len() - 1]));
                    assert(r@[r@.len() - 1].0@ == cur.0@);
                    assert(*r@[r@.len() - 1].1 == cur.1);
                    assert forall|j: int|
                        #![trigger r@[j]]
                        0 <= j < r@.len() implies r@[j].0@ == want[j].0@ && *r@[j].1
                        == want[j].1 by {
                        if j < r@.len() - 1 {
                            assert(r@[j] == r_old[j]);
                            assert(want[j] == enabled_entries(pre)[j]);
                        } else {
                            assert(want[j] == cur);
                        }
                    }
                }
            }
            i = i + 1;
        }
        proof {
            assert(self.oauth.providers@.subrange(0, n as int) =~= self.oauth.providers@);
        }
        r
    }
}


impl Config {
    /// The configuration written out for a fresh installation: a Blessing
    /// Skin provider pointing at littleskin.cn, enabled, and a Microsoft
    /// provider, disabled, with placeholder credentials, served locally.
    pub fn default_config() -> (r: Config)
        ensures
            r.server.host@ == "127.0.0.1"@,
            r.server.port == 3000,
            r.oauth.prefix_url@ == "http://127.0.0.1:3000"@,
            r.oauth.secret_string@ == "your-secret-here-change-this-in-production"@,
            r.oauth.providers@.len() == 2,
            r.oauth.providers@[0].0@ == "littleskin"@,
            r.oauth.providers@[0].1.provider_type@ == ProviderTypeView::BlessingSkin(
                "https://littleskin.cn"@,
            ),
            r.oauth.providers@[0].1.client_id@ == "your_client_id_here"@,
            r.oauth.providers@[0].1.client_secret@ == "your_client_secret_here"@,
            r.oauth.providers@[0].1.enabled,
            r.oauth.providers@[0].1.scopes@.len() == 0,
            r.oauth.providers@[1].0@ == "microsoft"@,
            r.oauth.providers@[1].1.provider_type@ == ProviderTypeView::Microsoft,
            r.oauth.providers@[1].1.client_id@ == "your_azure_client_id"@,
            r.oauth.providers@[1].1.client_secret@ == "your_azure_client_secret"@,
            !r.oauth.providers@[1].1.enabled,
            r.oauth.providers@[1].1.scopes@.len() == 0,
            unique_names(r.oauth.providers@),
    {
        let littleskin = OAuthProviderConfig {
            provider_type: OAuthProviderType::BlessingSkin("https://littleskin.cn".to_owned()),
            client_id: "your_client_id_here".to_owned(),
            client_secret: "your_client_secret_here".to_owned(),
            enabled: default_true(),
            scopes: Vec::new(),
        };
        let microsoft = OAuthProviderConfig {
            provider_type: OAuthProviderType::Microsoft,
            client_id: "your_azure_client_id".to_owned(),
            client_secret: "your_azure_client_secret".to_owned(),
            enabled: false,
            scopes: Vec::new(),
        };
        let mut providers: Vec<(String, OAuthProviderConfig)> = Vec::new();
        providers.push(("littleskin".to_owned(), littleskin));
        providers.push(("microsoft".to_owned(), microsoft));
        proof {
            reveal_strlit("littleskin");
            reveal_strlit("microsoft");
            assert("littleskin"@.len() == 10);
            assert("microsoft"@.len() == 9);
        }
        Config {
            server: ServerConfig { host: "127.0.0.1".to_owned(), port: 3000 },
            oauth: OAuthProvidersConfig {
                prefix_url: "http://127.0.0.1:3000".to_owned(),
                secret_string: "your-secret-here-change-this-in-production".to_owned(),
                providers,
            },
        }
    }
}

} // verus!
