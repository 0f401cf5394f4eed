//! What a command is told: where a novel comes from, which book format is
//! built, and which script conversions are applied.

use vstd::prelude::*;
use crate::outside::{join_path, path_joined};
use crate::utils::Message;

verus! {

/// A site that novels are fetched from.
#[must_use]
#[derive(Clone, Copy, Debug, PartialEq, Eq, Structural)]
pub enum Source {
    Sfacg,
    Ciweimao,
}

/// A format that a book is built in.
#[must_use]
#[derive(Clone, Copy, Debug, PartialEq, Eq, Structural)]
pub enum Format {
    Pandoc,
    Mdbook,
}

/// A script conversion that is applied to text.
#[must_use]
#[derive(Clone, Copy, Debug, PartialEq, Eq, Structural)]
pub enum Convert {
    /// Simplified to traditional Chinese.
    S2T,
    /// Traditional to simplified Chinese.
    T2S,
    /// Japanese character shapes to traditional, then to simplified Chinese.
    JP2T2S,
    /// The user's own table.
    CUSTOM,
}

impl Source {
    /// The name of the site, as it is written on the command line.
    pub fn as_str(&self) -> (name: &'static str)
        ensures
            name@ == match *self {
                Source::Sfacg => "sfacg"@,
                Source::Ciweimao => "ciweimao"@,
            },
    {
        match self {
            Source::Sfacg => "sfacg",
            Source::Ciweimao => "ciweimao",
        }
    }
}

impl Format {
    /// The name of the format.
    pub fn as_str(&self) -> (name: &'static str)
        ensures
            name@ == match *self {
                Format::Pandoc => "Pandoc"@,
                Format::Mdbook => "Mdbook"@,
            },
    {
        match self {
            Format::Pandoc => "Pandoc",
            Format::Mdbook => "Mdbook",
        }
    }
}

impl Convert {
    /// The name of the conversion.
    pub fn as_str(&self) -> (name: &'static str)
        ensures
            name@ == match *self {
                Convert::S2T => "S2T"@,
                Convert::T2S => "T2S"@,
                Convert::JP2T2S => "JP2T2S"@,
                Convert::CUSTOM => "CUSTOM"@,
            },
    {
        match self {
            Convert::S2T => "S2T",
            Convert::T2S => "T2S",
            Convert::JP2T2S => "JP2T2S",
            Convert::CUSTOM => "CUSTOM",
        }
    }
}

/// One setting of the client that fetches novels.
#[derive(Debug, PartialEq, Eq)]
pub enum ClientOption {
    /// Go through the proxy at this address.
    Proxy(String),
    /// Go through no proxy, whatever the system says.
    NoProxy,
    /// Trust the certificate in this file.
    Cert(String),
}

/// The settings that the arguments ask for, in the order in which they are
/// made.
pub open spec fn options_for(proxy: Option<String>, no_proxy: bool, cert: Option<String>) -> Seq<
    ClientOption,
> {
    let first = match proxy {
        Some(address) => seq![ClientOption::Proxy(address)],
        None => seq![],
    };
    let second = if no_proxy {
        seq![ClientOption::NoProxy]
    } else {
        seq![]
    };
    let third = match cert {
        Some(path) => seq![ClientOption::Cert(path)],
        None => seq![],
    };
    first + second + third
}

/// The settings to make on the client: the proxy if one is given, then no
/// proxy if that is asked for, then the certificate if one is given.
pub fn set_options(proxy: Option<String>, no_proxy: bool, cert: Option<String>) -> (options: Vec<
    ClientOption,
>)
    ensures
        options@ == options_for(proxy, no_proxy, cert),
{
    let mut options: Vec<ClientOption> = Vec::new();
    if let Some(address) = proxy {
        options.push(ClientOption::Proxy(address));
    }
    if no_proxy {
        options.push(ClientOption::NoProxy);
    }
    if let Some(path) = cert {
        options.push(ClientOption::Cert(path));
    }
    assert(options@ =~= options_for(proxy, no_proxy, cert));
    options
}

/// Where the proxy's certificate lies below the home directory `home`.
#[must_use]
pub fn default_cert_path(home: &str) -> (path: String)
    ensures
        path@ == path_joined(path_joined(home@, ".mitmproxy"@), "mitmproxy-ca-cert.pem"@),
{
    let directory = join_path(home, ".mitmproxy");
    join_path(directory.as_str(), "mitmproxy-ca-cert.pem")
}

/// The message that says where the proxy's certificate is expected, for the
/// home directory `home`.
pub fn cert_help_msg(home: &str) -> (message: Message)
    ensures
        message.id@ == "cert"@,
        message.args.deep_view() == seq![
            (
                "cert_path"@,
                path_joined(path_joined(home@, ".mitmproxy"@), "mitmproxy-ca-cert.pem"@),
            ),
        ],
{
    let mut args: Vec<(String, String)> = Vec::new();
    args.push(("cert_path".to_owned(), default_cert_path(home)));
    assert(args.deep_view()[0] == args@[0].deep_view());
    assert(args.deep_view() =~= seq![
        (
            "cert_path"@,
            path_joined(path_joined(home@, ".mitmproxy"@), "mitmproxy-ca-cert.pem"@),
        ),
    ]);
    Message { id: "cert".to_owned(), args }
}

} // verus!
