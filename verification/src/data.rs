//! Host session state: the board configuration, the in-memory user records,
//! and the node-status table. The interpreter reads and writes this state
//! through the built-in procedures; the host owns it for the session.

use vstd::prelude::*;

verus! {

/// Board-wide configuration.
#[derive(Debug)]
pub struct PcbDataType {
    /// Software version.
    pub version: String,
    /// Sysop display name.
    pub sysop: String,
    pub sysop_sec: i32,
    /// Sysop local password.
    pub password: String,
    /// True to use the sysop's real name instead of the generic name.
    pub use_real_name: bool,
    /// Node number of this node.
    pub node_number: usize,
}

impl PcbDataType {
    /// An exact copy.
    pub fn duplicate(&self) -> (r: Self)
        ensures
            r == *self,
    {
        PcbDataType {
            version: self.version.clone(),
            sysop: self.sysop.clone(),
            sysop_sec: self.sysop_sec,
            password: self.password.clone(),
            use_real_name: self.use_real_name,
            node_number: self.node_number,
        }
    }
}

impl Default for PcbDataType {
    /// Empty strings and zeroes.
    fn default() -> (r: Self)
        ensures
            r.version@ == Seq::<char>::empty(),
            r.sysop@ == Seq::<char>::empty(),
            r.sysop_sec == 0,
            r.password@ == Seq::<char>::empty(),
            !r.use_real_name,
            r.node_number == 0,
    {
        PcbDataType {
            version: String::new(),
            sysop: String::new(),
            sysop_sec: 0,
            password: String::new(),
            use_real_name: false,
            node_number: 0,
        }
    }
}

/// One user record of the board's user base.
#[derive(Debug)]
pub struct UserRecord {
    pub name: String,
    pub city: String,
    pub password: String,
    pub bus_data_phone: String,
    pub home_voice_phone: String,
    pub last_date_on: u16,
    pub last_time_on: String,
    pub expert_mode: bool,
    /// Transfer protocol (A..Z).
    pub protocol: char,
    pub security_level: i32,
    /// Number of times the caller has connected.
    pub num_times_on: usize,
    /// Page length when displaying data on the screen.
    pub page_len: i32,
    pub num_uploads: i32,
    pub num_downloads: i32,
    pub daily_downloaded_bytes: usize,
    pub user_comment: String,
    pub sysop_comment: String,
    /// Number of minutes online.
    pub elapsed_time_on: i32,
    pub scroll_flag: bool,
    pub total_dl_bytes: usize,
    pub total_ul_bytes: usize,
    pub alias_support: bool,
    pub alias: String,
    pub address_support: bool,
}

impl UserRecord {
    /// An exact copy.
    pub fn duplicate(&self) -> (r: Self)
        ensures
            r == *self,
    {
        UserRecord {
            name: self.name.clone(),
            city: self.city.clone(),
            password: self.password.clone(),
            bus_data_phone: self.bus_data_phone.clone(),
            home_voice_phone: self.home_voice_phone.clone(),
            last_date_on: self.last_date_on,
            last_time_on: self.last_time_on.clone(),
            expert_mode: self.expert_mode,
            protocol: self.protocol,
            security_level: self.security_level,
            num_times_on: self.num_times_on,
            page_len: self.page_len,
            num_uploads: self.num_uploads,
            num_downloads: self.num_downloads,
            daily_downloaded_bytes: self.daily_downloaded_bytes,
            user_comment: self.user_comment.clone(),
            sysop_comment: self.sysop_comment.clone(),
            elapsed_time_on: self.elapsed_time_on,
            scroll_flag: self.scroll_flag,
            total_dl_bytes: self.total_dl_bytes,
            total_ul_bytes: self.total_ul_bytes,
            alias_support: self.alias_support,
            alias: self.alias.clone(),
            address_support: self.address_support,
        }
    }
}

impl Default for UserRecord {
    /// Empty strings, zeroes, protocol `Z`, flags off.
    fn default() -> (r: Self)
        ensures
            r.name@ == Seq::<char>::empty(),
            r.city@ == Seq::<char>::empty(),
            r.password@ == Seq::<char>::empty(),
            r.page_len == 0,
            r.security_level == 0,
            !r.scroll_flag,
            !r.expert_mode,
    {
        UserRecord {
            name: String::new(),
            city: String::new(),
            password: String::new(),
            bus_data_phone: String::new(),
            home_voice_phone: String::new(),
            last_date_on: 0,
            last_time_on: String::new(),
            expert_mode: false,
            protocol: 'Z',
            security_level: 0,
            num_times_on: 0,
            page_len: 0,
            num_uploads: 0,
            num_downloads: 0,
            daily_downloaded_bytes: 0,
            user_comment: String::new(),
            sysop_comment: String::new(),
            elapsed_time_on: 0,
            scroll_flag: false,
            total_dl_bytes: 0,
            total_ul_bytes: 0,
            alias_support: false,
            alias: String::new(),
            address_support: false,
        }
    }
}

/// One entry of the fixed-size node-status table.
#[derive(Debug)]
pub struct Node {
    pub status: char,
    pub mail_waiting: bool,
    pub pager: u32,
    pub name: String,
    pub city: String,
    pub operation: String,
    pub message: String,
    pub channel: u8,
    pub last_update: String,
}

impl Node {
    /// An exact copy.
    pub fn duplicate(&self) -> (r: Self)
        ensures
            r == *self,
    {
        Node {
            status: self.status,
            mail_waiting: self.mail_waiting,
            pager: self.pager,
            name: self.name.clone(),
            city: self.city.clone(),
            operation: self.operation.clone(),
            message: self.message.clone(),
            channel: self.channel,
            last_update: self.last_update.clone(),
        }
    }
}

impl Default for Node {
    /// An idle entry: empty strings and zeroes.
    fn default() -> (r: Self)
        ensures
            r.name@ == Seq::<char>::empty(),
            r.city@ == Seq::<char>::empty(),
            r.operation@ == Seq::<char>::empty(),
            r.status == ' ',
    {
        Node {
            status: ' ',
            mail_waiting: false,
            pager: 0,
            name: String::new(),
            city: String::new(),
            operation: String::new(),
            message: String::new(),
            channel: 0,
            last_update: String::new(),
        }
    }
}

/// The shared session state the built-ins read and write.
#[derive(Debug)]
pub struct IcyBoardData {
    pub users: Vec<UserRecord>,
    pub nodes: Vec<Node>,
    pub pcb_data: PcbDataType,
}

impl IcyBoardData {
    /// An exact copy: the interpreter clones the host's state defensively
    /// when a run starts.
    pub fn duplicate(&self) -> (r: Self)
        ensures
            r.users@ == self.users@,
            r.nodes@ == self.nodes@,
            r.pcb_data == self.pcb_data,
    {
        let mut users: Vec<UserRecord> = Vec::new();
        let mut i: usize = 0;
        while i < self.users.len()
            invariant
                i <= self.users@.len(),
                users@ =~= self.users@.subrange(0, i as int),
            decreases self.users@.len() - i,
        {
            users.push(self.users[i].duplicate());
            i = i + 1;
        }
        let mut nodes: Vec<Node> = Vec::new();
        let mut j: usize = 0;
        while j < self.nodes.len()
            invariant
                j <= self.nodes@.len(),
                nodes@ =~= self.nodes@.subrange(0, j as int),
            decreases self.nodes@.len() - j,
        {
            nodes.push(self.nodes[j].duplicate());
            j = j + 1;
        }
        proof {
            assert(users@ =~= self.users@);
            assert(nodes@ =~= self.nodes@);
        }
        let r = IcyBoardData { users, nodes, pcb_data: self.pcb_data.duplicate() };
        proof {
            assert(r.users@ == self.users@);
            assert(r.nodes@ == self.nodes@);
        }
        r
    }
}

impl Default for IcyBoardData {
    /// No users, no nodes, default configuration.
    fn default() -> (r: Self)
        ensures
            r.users@ == Seq::<UserRecord>::empty(),
            r.nodes@ == Seq::<Node>::empty(),
    {
        IcyBoardData { users: Vec::new(), nodes: Vec::new(), pcb_data: Default::default() }
    }
}

} // verus!
