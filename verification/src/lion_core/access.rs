//! Access requests: the operations on resources that capability checks govern.

use vstd::prelude::*;

verus! {

/// A request to access a resource.
#[derive(Debug, Clone, PartialEq, Eq, Hash)]
pub enum AccessRequest {
    /// File access.
    File {
        /// Path to the file, as text.
        path: String,
        /// Whether to read the file.
        read: bool,
        /// Whether to write the file.
        write: bool,
        /// Whether to execute the file.
        execute: bool,
    },
    /// Network access.
    Network {
        /// Host to connect to or listen on.
        host: String,
        /// Port.
        port: u16,
        /// Whether to connect.
        connect: bool,
        /// Whether to listen.
        listen: bool,
    },
    /// A call to a function of a plugin.
    PluginCall {
        /// ID of the plugin to call.
        plugin_id: String,
        /// Name of the function to call.
        function: String,
    },
    /// Memory access.
    Memory {
        /// ID of the memory region.
        region_id: String,
        /// Whether to read the region.
        read: bool,
        /// Whether to write the region.
        write: bool,
    },
    /// Sending a message.
    Message {
        /// Recipient of the message.
        recipient: String,
        /// Topic of the message.
        topic: String,
    },
    /// A custom kind of access.
    Custom {
        /// Type of the resource.
        resource_type: String,
        /// Operation on the resource.
        operation: String,
        /// Parameters of the operation.
        params: serde_json::Value,
    },
}

/// The kind of an access request.
#[derive(Debug, Clone, PartialEq, Eq)]
pub enum AccessRequestType {
    /// File access.
    File,
    /// Network access.
    Network,
    /// A plugin call.
    PluginCall,
    /// Memory access.
    Memory,
    /// Sending a message.
    Message,
    /// A custom kind, with its resource type.
    Custom(String),
}

impl AccessRequest {
    /// The kind of a request, as a value: the variant, and for a custom request its resource
    /// type.
    pub open spec fn kind(self) -> (int, Seq<char>) {
        match self {
            Self::File { .. } => (0, Seq::empty()),
            Self::Network { .. } => (1, Seq::empty()),
            Self::PluginCall { .. } => (2, Seq::empty()),
            Self::Memory { .. } => (3, Seq::empty()),
            Self::Message { .. } => (4, Seq::empty()),
            Self::Custom { resource_type, .. } => (5, resource_type@),
        }
    }

    /// The kind of this request.
    pub fn access_type(&self) -> (r: AccessRequestType)
        ensures
            r.kind() == self.kind(),
    {
        match self {
            Self::File { .. } => AccessRequestType::File,
            Self::Network { .. } => AccessRequestType::Network,
            Self::PluginCall { .. } => AccessRequestType::PluginCall,
            Self::Memory { .. } => AccessRequestType::Memory,
            Self::Message { .. } => AccessRequestType::Message,
            Self::Custom { resource_type, .. } => AccessRequestType::Custom(resource_type.clone()),
        }
    }

    /// A request to read a file.
    pub fn file_read(path: &str) -> (r: Self)
        ensures
            r matches Self::File { path: p, read, write, execute } && p@ == path@ && read && !write
                && !execute,
    {
        Self::File { path: String::from_str(path), read: true, write: false, execute: false }
    }

    /// A request to write a file.
    pub fn file_write(path: &str) -> (r: Self)
        ensures
            r matches Self::File { path: p, read, write, execute } && p@ == path@ && !read && write
                && !execute,
    {
        Self::File { path: String::from_str(path), read: false, write: true, execute: false }
    }

    /// A request to execute a file.
    pub fn file_execute(path: &str) -> (r: Self)
        ensures
            r matches Self::File { path: p, read, write, execute } && p@ == path@ && !read && !write
                && execute,
    {
        Self::File { path: String::from_str(path), read: false, write: false, execute: true }
    }

    /// A request to read and write a file.
    pub fn file_read_write(path: &str) -> (r: Self)
        ensures
            r matches Self::File { path: p, read, write, execute } && p@ == path@ && read && write
                && !execute,
    {
        Self::File { path: String::from_str(path), read: true, write: true, execute: false }
    }

    /// A request to connect to a host.
    pub fn network_connect(host: &str, port: u16) -> (r: Self)
        ensures
            r matches Self::Network { host: h, port: p, connect, listen } && h@ == host@ && p
                == port && connect && !listen,
    {
        Self::Network { host: String::from_str(host), port, connect: true, listen: false }
    }

    /// A request to listen on a host and port.
    pub fn network_listen(host: &str, port: u16) -> (r: Self)
        ensures
            r matches Self::Network { host: h, port: p, connect, listen } && h@ == host@ && p
                == port && !connect && listen,
    {
        Self::Network { host: String::from_str(host), port, connect: false, listen: true }
    }

    /// A request to call a function of a plugin.
    pub fn plugin_call(plugin_id: &str, function: &str) -> (r: Self)
        ensures
            r matches Self::PluginCall { plugin_id: p, function: f } && p@ == plugin_id@ && f@
                == function@,
    {
        Self::PluginCall {
            plugin_id: String::from_str(plugin_id),
            function: String::from_str(function),
        }
    }

    /// A request to read a memory region.
    pub fn memory_read(region_id: &str) -> (r: Self)
        ensures
            r matches Self::Memory { region_id: id, read, write } && id@ == region_id@ && read
                && !write,
    {
        Self::Memory { region_id: String::from_str(region_id), read: true, write: false }
    }

    /// A request to write a memory region.
    pub fn memory_write(region_id: &str) -> (r: Self)
        ensures
            r matches Self::Memory { region_id: id, read, write } && id@ == region_id@ && !read
                && write,
    {
        Self::Memory { region_id: String::from_str(region_id), read: false, write: true }
    }

    /// A request to send a message.
    pub fn message_send(recipient: &str, topic: &str) -> (r: Self)
        ensures
            r matches Self::Message { recipient: to, topic: t } && to@ == recipient@ && t@
                == topic@,
    {
        Self::Message { recipient: String::from_str(recipient), topic: String::from_str(topic) }
    }
}

impl AccessRequestType {
    /// The kind, as a value: the variant, and for a custom kind its resource type.
    pub open spec fn kind(self) -> (int, Seq<char>) {
        match self {
            Self::File => (0, Seq::empty()),
            Self::Network => (1, Seq::empty()),
            Self::PluginCall => (2, Seq::empty()),
            Self::Memory => (3, Seq::empty()),
            Self::Message => (4, Seq::empty()),
            Self::Custom(t) => (5, t@),
        }
    }
}

} // verus!
