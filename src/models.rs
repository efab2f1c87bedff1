//! Entity models. Ids are UUIDs held as 128-bit numbers and times are Unix
//! seconds.
use crate::value::JsonValue;
use vstd::prelude::*;

verus! {

/// The `application` model.
pub struct Application {
    pub id: u128,
    pub name: String,
    pub namespace: String,
    pub visibility: String,
    pub status: String,
    pub description: String,
    pub manager_id: u128,
    pub access_key_id: String,
    pub tags: Vec<u128>,
    pub extra: Vec<(String, JsonValue)>,
    pub owner_id: Option<u128>,
    pub maintainer_id: Option<u128>,
    pub created_at: i64,
    pub updated_at: i64,
    pub version: u64,
    pub edition: u32,
}

impl Application {
    /// A new instance with the given id and every other field empty.
    pub fn new(id: u128) -> (r: Application)
        ensures
            r.id == id,
            r.name@.len() == 0,
            r.namespace@.len() == 0,
            r.visibility@.len() == 0,
            r.status@.len() == 0,
            r.description@.len() == 0,
            r.manager_id == 0,
            r.access_key_id@.len() == 0,
            r.tags@.len() == 0,
            r.extra@.len() == 0,
            r.owner_id is None,
            r.maintainer_id is None,
            r.created_at == 0,
            r.updated_at == 0,
            r.version == 0,
            r.edition == 0,
    {
        Application {
            id: id,
            name: String::new(),
            namespace: String::new(),
            visibility: String::new(),
            status: String::new(),
            description: String::new(),
            manager_id: 0,
            access_key_id: String::new(),
            tags: Vec::new(),
            extra: Vec::new(),
            owner_id: None,
            maintainer_id: None,
            created_at: 0,
            updated_at: 0,
            version: 0,
            edition: 0,
        }
    }

    /// Sets the access key id.
    pub fn set_access_key_id(&mut self, access_key_id: &str)
        ensures
            final(self).access_key_id@ == access_key_id@,
            *final(self) == (Application { access_key_id: final(self).access_key_id, ..*old(self) }),
    {
        self.access_key_id = access_key_id.to_owned();
    }

}

/// The `message` model.
pub struct Message {
    pub id: u128,
    pub name: String,
    pub namespace: String,
    pub visibility: String,
    pub status: String,
    pub description: String,
    pub producer_id: u128,
    pub channel_id: u128,
    pub consumer_id: Option<u128>,
    pub message: String,
    pub tags: Vec<u128>,
    pub content: Vec<(String, JsonValue)>,
    pub extra: Vec<(String, JsonValue)>,
    pub owner_id: Option<u128>,
    pub maintainer_id: Option<u128>,
    pub created_at: i64,
    pub updated_at: i64,
    pub version: u64,
    pub edition: u32,
}

impl Message {
    /// A new instance with the given id and every other field empty.
    pub fn new(id: u128) -> (r: Message)
        ensures
            r.id == id,
            r.name@.len() == 0,
            r.namespace@.len() == 0,
            r.visibility@.len() == 0,
            r.status@.len() == 0,
            r.description@.len() == 0,
            r.producer_id == 0,
            r.channel_id == 0,
            r.consumer_id is None,
            r.message@.len() == 0,
            r.tags@.len() == 0,
            r.content@.len() == 0,
            r.extra@.len() == 0,
            r.owner_id is None,
            r.maintainer_id is None,
            r.created_at == 0,
            r.updated_at == 0,
            r.version == 0,
            r.edition == 0,
    {
        Message {
            id: id,
            name: String::new(),
            namespace: String::new(),
            visibility: String::new(),
            status: String::new(),
            description: String::new(),
            producer_id: 0,
            channel_id: 0,
            consumer_id: None,
            message: String::new(),
            tags: Vec::new(),
            content: Vec::new(),
            extra: Vec::new(),
            owner_id: None,
            maintainer_id: None,
            created_at: 0,
            updated_at: 0,
            version: 0,
            edition: 0,
        }
    }

    /// Sets the owner id.
    pub fn set_owner_id(&mut self, owner_id: u128)
        ensures
            *final(self) == (Message { owner_id: Some(owner_id), ..*old(self) }),
    {
        self.owner_id = Some(owner_id);
    }

    /// Sets the maintainer id.
    pub fn set_maintainer_id(&mut self, maintainer_id: u128)
        ensures
            *final(self) == (Message { maintainer_id: Some(maintainer_id), ..*old(self) }),
    {
        self.maintainer_id = Some(maintainer_id);
    }

}

/// The `group` model.
pub struct Group {
    pub id: u128,
    pub name: String,
    pub namespace: String,
    pub visibility: String,
    pub status: String,
    pub description: String,
    pub subject: String,
    pub members: Vec<u128>,
    pub tags: Vec<u128>,
    pub content: Vec<(String, JsonValue)>,
    pub extra: Vec<(String, JsonValue)>,
    pub owner_id: u128,
    pub maintainer_id: u128,
    pub created_at: i64,
    pub updated_at: i64,
    pub version: u64,
    pub edition: u32,
}

impl Group {
    /// A new instance with the given id and every other field empty.
    pub fn new(id: u128) -> (r: Group)
        ensures
            r.id == id,
            r.name@.len() == 0,
            r.namespace@.len() == 0,
            r.visibility@.len() == 0,
            r.status@.len() == 0,
            r.description@.len() == 0,
            r.subject@.len() == 0,
            r.members@.len() == 0,
            r.tags@.len() == 0,
            r.content@.len() == 0,
            r.extra@.len() == 0,
            r.owner_id == 0,
            r.maintainer_id == 0,
            r.created_at == 0,
            r.updated_at == 0,
            r.version == 0,
            r.edition == 0,
    {
        Group {
            id: id,
            name: String::new(),
            namespace: String::new(),
            visibility: String::new(),
            status: String::new(),
            description: String::new(),
            subject: String::new(),
            members: Vec::new(),
            tags: Vec::new(),
            content: Vec::new(),
            extra: Vec::new(),
            owner_id: 0,
            maintainer_id: 0,
            created_at: 0,
            updated_at: 0,
            version: 0,
            edition: 0,
        }
    }

}

/// The `log` model.
pub struct Log {
    pub id: u128,
    pub name: String,
    pub namespace: String,
    pub visibility: String,
    pub status: String,
    pub description: String,
    pub service: String,
    pub server_host: String,
    pub client_ip: String,
    pub topic: String,
    pub level: String,
    pub message: String,
    pub source: String,
    pub recorded_at: i64,
    pub content: Vec<(String, JsonValue)>,
    pub metrics: Vec<(String, JsonValue)>,
    pub extras: Vec<(String, JsonValue)>,
}

impl Log {
    /// A new instance with the given id and every other field empty.
    pub fn new(id: u128) -> (r: Log)
        ensures
            r.id == id,
            r.name@.len() == 0,
            r.namespace@.len() == 0,
            r.visibility@.len() == 0,
            r.status@.len() == 0,
            r.description@.len() == 0,
            r.service@.len() == 0,
            r.server_host@.len() == 0,
            r.client_ip@.len() == 0,
            r.topic@.len() == 0,
            r.level@.len() == 0,
            r.message@.len() == 0,
            r.source@.len() == 0,
            r.recorded_at == 0,
            r.content@.len() == 0,
            r.metrics@.len() == 0,
            r.extras@.len() == 0,
    {
        Log {
            id: id,
            name: String::new(),
            namespace: String::new(),
            visibility: String::new(),
            status: String::new(),
            description: String::new(),
            service: String::new(),
            server_host: String::new(),
            client_ip: String::new(),
            topic: String::new(),
            level: String::new(),
            message: String::new(),
            source: String::new(),
            recorded_at: 0,
            content: Vec::new(),
            metrics: Vec::new(),
            extras: Vec::new(),
        }
    }

}

/// The `task` model.
pub struct Task {
    pub id: u128,
    pub name: String,
    pub namespace: String,
    pub visibility: String,
    pub status: String,
    pub description: String,
    pub project_id: u128,
    pub input_id: u128,
    pub output_id: Option<u128>,
    pub dependencies: Vec<u128>,
    pub valid_from: i64,
    pub expires_at: i64,
    pub schedule: String,
    pub last_time: i64,
    pub next_time: i64,
    pub priority: u16,
    pub tags: Vec<u128>,
    pub content: Vec<(String, JsonValue)>,
    pub metrics: Vec<(String, JsonValue)>,
    pub extras: Vec<(String, JsonValue)>,
    pub manager_id: u128,
    pub maintainer_id: u128,
    pub created_at: i64,
    pub updated_at: i64,
    pub version: u64,
    pub edition: u32,
}

impl Task {
    /// A new instance with the given id and every other field empty.
    pub fn new(id: u128) -> (r: Task)
        ensures
            r.id == id,
            r.name@.len() == 0,
            r.namespace@.len() == 0,
            r.visibility@.len() == 0,
            r.status@.len() == 0,
            r.description@.len() == 0,
            r.project_id == 0,
            r.input_id == 0,
            r.output_id is None,
            r.dependencies@.len() == 0,
            r.valid_from == 0,
            r.expires_at == 0,
            r.schedule@.len() == 0,
            r.last_time == 0,
            r.next_time == 0,
            r.priority == 0,
            r.tags@.len() == 0,
            r.content@.len() == 0,
            r.metrics@.len() == 0,
            r.extras@.len() == 0,
            r.manager_id == 0,
            r.maintainer_id == 0,
            r.created_at == 0,
            r.updated_at == 0,
            r.version == 0,
            r.edition == 0,
    {
        Task {
            id: id,
            name: String::new(),
            namespace: String::new(),
            visibility: String::new(),
            status: String::new(),
            description: String::new(),
            project_id: 0,
            input_id: 0,
            output_id: None,
            dependencies: Vec::new(),
            valid_from: 0,
            expires_at: 0,
            schedule: String::new(),
            last_time: 0,
            next_time: 0,
            priority: 0,
            tags: Vec::new(),
            content: Vec::new(),
            metrics: Vec::new(),
            extras: Vec::new(),
            manager_id: 0,
            maintainer_id: 0,
            created_at: 0,
            updated_at: 0,
            version: 0,
            edition: 0,
        }
    }

}

} // verus!
