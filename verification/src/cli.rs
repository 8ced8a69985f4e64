use vstd::prelude::*;

verus! {

/// A host address and a port, as given on the command line.
#[derive(Debug, Clone)]
pub struct Endpoint {
    pub ip: String,
    pub port: String,
}

/// `host:port`.
pub open spec fn socket_text(ip: Seq<char>, port: Seq<char>) -> Seq<char> {
    ip + ":"@ + port
}

/// `http://host:port`.
pub open spec fn uri_text(ip: Seq<char>, port: Seq<char>) -> Seq<char> {
    "http://"@ + socket_text(ip, port)
}

/// The connecting address is `http://` followed by the serving address, so it ends with
/// the port exactly as given and holds the address exactly as given.
pub proof fn lemma_uri_holds_endpoint(ip: Seq<char>, port: Seq<char>)
    ensures
        uri_text(ip, port) == "http://"@ + ip + ":"@ + port,
        uri_text(ip, port).len() == "http://"@.len() + ip.len() + 1 + port.len(),
        uri_text(ip, port).subrange(uri_text(ip, port).len() - port.len(), uri_text(ip, port).len() as int)
            == port,
        uri_text(ip, port).subrange("http://"@.len() as int, ("http://"@.len() + ip.len()) as int) == ip,
        socket_text(ip, port) == ip + ":"@ + port,
{
    reveal_strlit("http://");
    reveal_strlit(":");
    let u = uri_text(ip, port);
    assert(u =~= "http://"@ + ip + ":"@ + port);
    assert(u.subrange(u.len() - port.len(), u.len() as int) =~= port);
    assert(u.subrange(7, (7 + ip.len()) as int) =~= ip);
}

impl Endpoint {
    /// The address that a server binds to and that names it in a request: `ip:port`.
    pub fn socket_address(&self) -> (address: String)
        ensures
            address@ == socket_text(self.ip@, self.port@),
            address@ == self.ip@ + ":"@ + self.port@,
    {
        let mut address = String::new();
        address.append(self.ip.as_str());
        address.append(":");
        address.append(self.port.as_str());
        address
    }

    /// The address that a client connects to: `http://ip:port`.
    pub fn uri(&self) -> (address: String)
        ensures
            address@ == uri_text(self.ip@, self.port@),
            address@ == "http://"@ + self.ip@ + ":"@ + self.port@,
    {
        let mut address = String::new();
        address.append("http://");
        address.append(self.ip.as_str());
        address.append(":");
        address.append(self.port.as_str());
        address
    }
}

/// What a program that takes an address and a port is asked to do.
#[derive(Debug)]
pub enum AddressInvocation {
    /// The arguments do not fit: print this line and stop.
    Usage(String),
    /// Serve at, or connect to, this endpoint.
    Run(Endpoint),
}

/// The line that tells how to call `program` with an address and a port.
pub open spec fn address_usage_text(program: Seq<char>) -> Seq<char> {
    "Usage: "@ + program + " [ipv4 address] [port number]"@
}

/// Reads the command line of the khudib server and of its client: the program's
/// name, then an address and a port, nothing more.
pub fn address_invocation(args: &Vec<String>) -> (invocation: AddressInvocation)
    requires
        args.len() >= 1,
    ensures
        args.len() != 3 ==> (invocation matches AddressInvocation::Usage(line) && line@
            == address_usage_text(args[0]@)),
        args.len() != 3 ==> (invocation matches AddressInvocation::Usage(line) && line@
            == "Usage: "@ + args[0]@ + " [ipv4 address] [port number]"@),
        args.len() == 3 ==> (invocation matches AddressInvocation::Run(endpoint) && endpoint.ip
            == args[1] && endpoint.port == args[2]),
{
    if args.len() != 3 {
        let mut line = String::new();
        line.append("Usage: ");
        line.append(args[0].as_str());
        line.append(" [ipv4 address] [port number]");
        AddressInvocation::Usage(line)
    } else {
        AddressInvocation::Run(Endpoint { ip: args[1].clone(), port: args[2].clone() })
    }
}

/// What the breakwater client is asked to do.
#[derive(Debug)]
pub enum BreakwaterInvocation {
    /// The arguments do not fit: print this line and stop.
    Usage(String),
    /// Connect to `endpoint` and send a request built from the three numbers, still as text.
    Run { endpoint: Endpoint, id: String, requests: String, credits: String },
}

/// The line that tells how to call the breakwater client `program`.
pub open spec fn breakwater_usage_text(program: Seq<char>) -> Seq<char> {
    "Usage: "@ + program
        + " [ipv4 address] [port number] [Client ID] [No. of Requests] [No. of Credits]"@
}

/// Reads the breakwater client's command line: the program's name, an address, a
/// port, a client id, a number of requests and a number of credits.
pub fn breakwater_invocation(args: &Vec<String>) -> (invocation: BreakwaterInvocation)
    requires
        args.len() >= 1,
    ensures
        args.len() != 6 ==> (invocation matches BreakwaterInvocation::Usage(line) && line@
            == breakwater_usage_text(args[0]@)),
        args.len() != 6 ==> (invocation matches BreakwaterInvocation::Usage(line) && line@
            == "Usage: "@ + args[0]@
            + " [ipv4 address] [port number] [Client ID] [No. of Requests] [No. of Credits]"@),
        args.len() == 6 ==> (invocation matches BreakwaterInvocation::Run {
            endpoint,
            id,
            requests,
            credits,
        } && endpoint.ip == args[1] && endpoint.port == args[2] && id == args[3] && requests
            == args[4] && credits == args[5]),
{
    if args.len() != 6 {
        let mut line = String::new();
        line.append("Usage: ");
        line.append(args[0].as_str());
        line.append(
            " [ipv4 address] [port number] [Client ID] [No. of Requests] [No. of Credits]",
        );
        BreakwaterInvocation::Usage(line)
    } else {
        BreakwaterInvocation::Run {
            endpoint: Endpoint { ip: args[1].clone(), port: args[2].clone() },
            id: args[3].clone(),
            requests: args[4].clone(),
            credits: args[5].clone(),
        }
    }
}

} // verus!
