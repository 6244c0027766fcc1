use vstd::prelude::*;

verus! {

/// One managed server as it is listed in `servers.json`.
#[derive(Debug)]
pub struct ServerConfig {
    pub id: String,
    pub name: String,
    pub url: String,
    pub password: String,
}

/// The whole configuration file.
#[derive(Debug)]
pub struct Config {
    pub servers: Vec<ServerConfig>,
}

/// What the browser is told about a server: everything but its password.
#[derive(Debug)]
pub struct ServerInfo {
    pub id: String,
    pub name: String,
    pub url: String,
}

pub struct ServerConfigView {
    pub id: Seq<char>,
    pub name: Seq<char>,
    pub url: Seq<char>,
    pub password: Seq<char>,
}

pub struct ServerInfoView {
    pub id: Seq<char>,
    pub name: Seq<char>,
    pub url: Seq<char>,
}

impl View for ServerConfig {
    type V = ServerConfigView;

    open spec fn view(&self) -> ServerConfigView {
        ServerConfigView { id: self.id@, name: self.name@, url: self.url@, password: self.password@ }
    }
}

impl View for ServerInfo {
    type V = ServerInfoView;

    open spec fn view(&self) -> ServerInfoView {
        ServerInfoView { id: self.id@, name: self.name@, url: self.url@ }
    }
}

impl ServerConfigView {
    /// The public part of a server's configuration.
    pub open spec fn info(self) -> ServerInfoView {
        ServerInfoView { id: self.id, name: self.name, url: self.url }
    }
}

/// The views of a list of server configurations.
pub open spec fn configs_view(servers: Seq<ServerConfig>) -> Seq<ServerConfigView> {
    servers.map_values(|s: ServerConfig| s@)
}

/// Some server of the list has this id.
pub open spec fn has_server(servers: Seq<ServerConfigView>, id: Seq<char>) -> bool {
    exists|i: int| 0 <= i < servers.len() && #[trigger] servers[i].id == id
}

/// `i` is the position of the first server of the list that has this id.
pub open spec fn is_first_with_id(servers: Seq<ServerConfigView>, id: Seq<char>, i: int) -> bool {
    &&& 0 <= i < servers.len()
    &&& servers[i].id == id
    &&& forall|j: int| 0 <= j < i ==> #[trigger] servers[j].id != id
}

impl Clone for ServerConfig {
    fn clone(&self) -> (r: Self)
        ensures
            r@ == self@,
    {
        ServerConfig {
            id: self.id.clone(),
            name: self.name.clone(),
            url: self.url.clone(),
            password: self.password.clone(),
        }
    }
}

impl Clone for ServerInfo {
    fn clone(&self) -> (r: Self)
        ensures
            r@ == self@,
    {
        ServerInfo { id: self.id.clone(), name: self.name.clone(), url: self.url.clone() }
    }
}

impl PartialEq for ServerInfo {
    fn eq(&self, other: &Self) -> (r: bool) {
        self.id == other.id && self.name == other.name && self.url == other.url
    }
}

impl vstd::std_specs::cmp::PartialEqSpecImpl for ServerInfo {
    open spec fn obeys_eq_spec() -> bool {
        true
    }

    open spec fn eq_spec(&self, other: &Self) -> bool {
        self@ == other@
    }
}

impl ServerConfig {
    /// The server as the browser sees it.
    pub fn info(&self) -> (r: ServerInfo)
        ensures
            r@ == self@.info(),
    {
        ServerInfo { id: self.id.clone(), name: self.name.clone(), url: self.url.clone() }
    }
}

impl Default for Config {
    fn default() -> (r: Self)
        ensures
            r.servers@.len() == 0,
    {
        Config { servers: Vec::new() }
    }
}

impl Config {
    /// The servers of the configuration as the server list shows them, in
    /// file order.
    pub fn server_infos(&self) -> (r: Vec<ServerInfo>)
        ensures
            r@.len() == self.servers@.len(),
            forall|i: int| 0 <= i < r@.len() ==> #[trigger] r@[i]@ == self.servers@[i]@.info(),
    {
        let mut out: Vec<ServerInfo> = Vec::new();
        let n = self.servers.len();
        for k in 0..n
            invariant
                n == self.servers@.len(),
                out@.len() == k,
                forall|i: int| 0 <= i < k ==> #[trigger] out@[i]@ == self.servers@[i]@.info(),
        {
            out.push(self.servers[k].info());
        }
        out
    }

    /// The first server of the configuration with this id, if any.
    pub fn find_server(&self, id: &str) -> (r: Option<ServerConfig>)
        ensures
            r is Some <==> has_server(configs_view(self.servers@), id@),
            r matches Some(s) ==> exists|i: int|
                is_first_with_id(configs_view(self.servers@), id@, i) && s@ == self.servers@[i]@,
    {
        let ghost cv = configs_view(self.servers@);
        let n = self.servers.len();
        let target = String::from_str(id);
        for k in 0..n
            invariant
                n == self.servers@.len(),
                cv == configs_view(self.servers@),
                target@ == id@,
                forall|j: int| 0 <= j < k ==> #[trigger] cv[j].id != id@,
        {
            if self.servers[k].id == target {
                assert(is_first_with_id(cv, id@, k as int));
                return Some(self.servers[k].clone());
            }
        }
        assert(!has_server(cv, id@));
        None
    }
}

} // verus!
