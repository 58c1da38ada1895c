//! Configuration records for users and their networks.
use vstd::prelude::*;

verus! {

/// Configuration for one IRC network.
#[derive(Debug, PartialEq, Eq)]
pub struct NetConfig {
    pub nick: String,
    pub alt_nicks: Vec<String>,
    pub nickserv_pass: Option<String>,
    pub channels: Vec<String>,
    pub username: Option<String>,
    pub realname: Option<String>,
    pub server: String,
    pub port: Option<u16>,
    pub password: Option<String>,
    pub use_ssl: Option<bool>,
}

/// A network configuration with every default filled in, ready to open a
/// connection from.
#[derive(Debug, PartialEq, Eq)]
pub struct IrcConfig {
    pub nickname: String,
    pub alt_nicks: Vec<String>,
    pub nick_password: Option<String>,
    pub username: String,
    pub realname: String,
    pub channels: Vec<String>,
    pub server: String,
    pub port: u16,
}

fn clone_strings(v: &Vec<String>) -> (r: Vec<String>)
    ensures
        r.deep_view() == v.deep_view(),
{
    let mut out: Vec<String> = Vec::new();
    let mut i: usize = 0;
    while i < v.len()
        invariant
            i <= v.len(),
            out.deep_view() == v.deep_view().take(i as int),
        decreases v.len() - i,
    {
        let ghost prev = out.deep_view();
        out.push(v[i].clone());
        proof {
            assert(out.deep_view() =~= prev.push(v.deep_view()[i as int]));
            assert(out.deep_view() =~= v.deep_view().take(i + 1));
        }
        i = i + 1;
    }
    proof {
        assert(v.deep_view().take(v.len() as int) =~= v.deep_view());
    }
    out
}

impl NetConfig {
    /// The configured nick.
    pub fn nick(&self) -> (r: &str)
        ensures
            r@ == self.nick@,
    {
        self.nick.as_str()
    }

    /// The configured alternative nicks.
    pub fn alt_nicks(&self) -> (r: Vec<String>)
        ensures
            r.deep_view() == self.alt_nicks.deep_view(),
    {
        clone_strings(&self.alt_nicks)
    }

    /// The username sent at registration; the nick doubles as the default.
    pub fn username(&self) -> (r: &str)
        ensures
            r@ == (match crate::line::opt_str_view(&self.username) {
                Some(u) => u,
                None => self.nick@,
            }),
    {
        match &self.username {
            Some(u) => u.as_str(),
            None => self.nick.as_str(),
        }
    }

    /// The real name sent at registration; the nick doubles as the default.
    pub fn realname(&self) -> (r: &str)
        ensures
            r@ == (match crate::line::opt_str_view(&self.realname) {
                Some(u) => u,
                None => self.nick@,
            }),
    {
        match &self.realname {
            Some(u) => u.as_str(),
            None => self.nick.as_str(),
        }
    }

    /// The NickServ password, when one is configured.
    pub fn nickserv_pass(&self) -> (r: Option<&str>)
        ensures
            match r {
                Some(p) => crate::line::opt_str_view(&self.nickserv_pass) == Some(p@),
                None => crate::line::opt_str_view(&self.nickserv_pass) is None,
            },
    {
        match &self.nickserv_pass {
            Some(p) => Some(p.as_str()),
            None => None,
        }
    }

    /// The server host to connect to.
    pub fn server(&self) -> (r: &str)
        ensures
            r@ == self.server@,
    {
        self.server.as_str()
    }

    /// The port to connect to; 6667 when none is configured.
    pub fn port(&self) -> (r: u16)
        ensures
            r == (match self.port {
                Some(p) => p,
                None => 6667u16,
            }),
    {
        match self.port {
            Some(p) => p,
            None => 6667,
        }
    }

    /// The channels to join once registered.
    pub fn channels(&self) -> (r: Vec<String>)
        ensures
            r.deep_view() == self.channels.deep_view(),
    {
        clone_strings(&self.channels)
    }

    /// Resolves this configuration into connection settings, with every
    /// default filled in.
    pub fn irc_config(&self) -> (r: IrcConfig)
        ensures
            r.nickname@ == self.nick@,
            r.alt_nicks.deep_view() == self.alt_nicks.deep_view(),
            crate::line::opt_str_view(&r.nick_password) == crate::line::opt_str_view(
                &self.nickserv_pass,
            ),
            r.username@ == (match crate::line::opt_str_view(&self.username) {
                Some(u) => u,
                None => self.nick@,
            }),
            r.realname@ == (match crate::line::opt_str_view(&self.realname) {
                Some(u) => u,
                None => self.nick@,
            }),
            r.channels.deep_view() == self.channels.deep_view(),
            r.server@ == self.server@,
            r.port == (match self.port {
                Some(p) => p,
                None => 6667u16,
            }),
    {
        IrcConfig {
            nickname: self.nick.clone(),
            alt_nicks: self.alt_nicks(),
            nick_password: crate::line::clone_opt_string(&self.nickserv_pass),
            username: self.username().to_owned(),
            realname: self.realname().to_owned(),
            channels: self.channels(),
            server: self.server.clone(),
            port: self.port(),
        }
    }
}

/// Configuration for one user: their networks, their client password, and an
/// optional command to run for alerts when no client is attached.
#[derive(Debug, PartialEq, Eq)]
pub struct UserConfig {
    pub net: Vec<(String, NetConfig)>,
    /// Password to authenticate as this user.
    pub password: String,
    /// Command to run when there are no clients to send alerts to.
    pub alert_cmd: Option<String>,
}

impl Default for UserConfig {
    fn default() -> (r: UserConfig)
        ensures
            r.net.len() == 0,
            r.password@ == Seq::<char>::empty(),
            r.alert_cmd is None,
    {
        UserConfig { net: Vec::new(), password: String::new(), alert_cmd: None }
    }
}

/// The whole configuration file: one record per user.
#[derive(Debug, PartialEq, Eq)]
pub struct ChatConfig {
    pub user: Vec<(String, UserConfig)>,
}

} // verus!
