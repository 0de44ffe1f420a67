//! The mail service: how it is described in a configuration, how a mail is
//! made ready for it, and what its answers mean for a delivery.

use crate::chars::to_chars;
use crate::conf::{config_error_text, lookup, Config, ConfigError, JsonModel};
use crate::text::MailMessage;
use vstd::prelude::*;

verus! {

/// The account at a mail relay through which the mails leave.
pub struct MailService {
    provider: String,
    port: u16,
    username: String,
    password: String,
}

/// What a `MailService` holds.
pub ghost struct ServiceView {
    pub provider: Seq<char>,
    pub port: u16,
    pub username: Seq<char>,
    pub password: Seq<char>,
}

impl View for MailService {
    type V = ServiceView;

    closed spec fn view(&self) -> ServiceView {
        ServiceView {
            provider: self.provider@,
            port: self.port,
            username: self.username@,
            password: self.password@,
        }
    }
}

/// Why the service could not be set up, or a mail not be delivered.
pub enum MailError {
    /// No relay can be addressed under this provider's name.
    SMTPWrongProvider(String),
    /// The relay did not answer the connection test.
    SMTPTestConnectionFailure(String),
    /// This text is no mailbox.
    SMTPWrongAddressFormat(String),
    /// The mail could not be put together.
    SMTPCannotBuildMessage,
    /// The relay did not take the mail for this recipient.
    SMTPMailSendingFailure(String),
    /// The configured port is no number that fits a port.
    ConfigErrorCannotParsePortU16,
    /// The configuration lacks what the service needs.
    External(ConfigError),
}

/// The sentence that reports `e`.
pub open spec fn mail_error_text(e: MailError) -> Seq<char> {
    match e {
        MailError::SMTPCannotBuildMessage => "Cannot build a message"@,
        MailError::SMTPMailSendingFailure(who) => "Cannot send message to "@ + who@,
        MailError::SMTPTestConnectionFailure(who) => "Test connection failed on "@ + who@,
        MailError::ConfigErrorCannotParsePortU16 => "Cannot parse port in configuration to u16"@,
        MailError::External(config) => config_error_text(config),
        MailError::SMTPWrongAddressFormat(addr) => addr@
            + " is not a correct message format, it should look like \"xxxx <xxxxx@example.mail.com>\""@,
        MailError::SMTPWrongProvider(who) => "May be "@ + who@
            + " is not a right email provider!"@,
    }
}

impl MailError {
    /// The sentence that reports this error.
    pub fn to_string(&self) -> (out: String)
        ensures
            out@ == mail_error_text(*self),
    {
        match self {
            MailError::SMTPCannotBuildMessage => String::from_str("Cannot build a message"),
            MailError::SMTPMailSendingFailure(who) => {
                let mut out = String::from_str("Cannot send message to ");
                out.append(who.as_str());
                out
            },
            MailError::SMTPTestConnectionFailure(who) => {
                let mut out = String::from_str("Test connection failed on ");
                out.append(who.as_str());
                out
            },
            MailError::ConfigErrorCannotParsePortU16 => String::from_str(
                "Cannot parse port in configuration to u16",
            ),
            MailError::External(config) => config.message(),
            MailError::SMTPWrongAddressFormat(addr) => {
                let mut out = addr.clone();
                out.append(
                    " is not a correct message format, it should look like \"xxxx <xxxxx@example.mail.com>\"",
                );
                out
            },
            MailError::SMTPWrongProvider(who) => {
                let mut out = String::from_str("May be ");
                out.append(who.as_str());
                out.append(" is not a right email provider!");
                out
            },
        }
    }
}

/// The number that the decimal digits `digits` write, if all of them are
/// digits. No digits write zero.
pub open spec fn digits_value(digits: Seq<char>) -> Option<nat>
    decreases digits.len(),
{
    if digits.len() == 0 {
        Some(0)
    } else {
        let c = digits.last();
        match digits_value(digits.drop_last()) {
            Some(head) if '0' <= c <= '9' => Some((10 * head + (c as nat - '0' as nat)) as nat),
            _ => None,
        }
    }
}

/// The port that `text` writes: an optional `+`, then one or more decimal
/// digits and nothing else, for a number up to 65535.
pub open spec fn port_of(text: Seq<char>) -> Option<u16> {
    let digits = if text.len() > 0 && text[0] == '+' {
        text.skip(1)
    } else {
        text
    };
    match digits_value(digits) {
        Some(n) if digits.len() > 0 && n <= u16::MAX => Some(n as u16),
        _ => None,
    }
}

/// A number written with more digits is no smaller.
proof fn lemma_digits_grow(digits: Seq<char>, n: int)
    requires
        0 <= n <= digits.len(),
    ensures
        digits_value(digits) matches Some(all) ==> (digits_value(digits.take(n)) matches Some(
            head,
        ) && head <= all),
    decreases digits.len(),
{
    if n == digits.len() {
        assert(digits.take(n) =~= digits);
    } else {
        assert(digits.drop_last().take(n) =~= digits.take(n));
        lemma_digits_grow(digits.drop_last(), n);
    }
}

/// Reads a port number.
pub fn parse_port(text: &str) -> (r: Option<u16>)
    ensures
        r == port_of(text@),
{
    let all = to_chars(text);
    let start: usize = if all.len() > 0 && all[0] == '+' {
        1
    } else {
        0
    };
    let ghost digits = all@.skip(start as int);
    if all.len() == start {
        return None;
    }
    let mut value: u32 = 0;
    let mut i: usize = start;
    proof {
        assert(all@.skip(0) =~= all@);
        assert(digits.take(0) =~= Seq::<char>::empty());
    }
    while i < all.len()
        invariant
            start <= i <= all.len(),
            digits == all@.skip(start as int),
            digits.len() > 0,
            port_of(text@) == (match digits_value(digits) {
                Some(n) if n <= u16::MAX => Some(n as u16),
                _ => None,
            }),
            digits_value(digits.take(i - start)) == Some(value as nat),
            value <= u16::MAX,
        decreases all.len() - i,
    {
        let c = all[i];
        proof {
            let seen = digits.take(i - start + 1);
            assert(seen.drop_last() =~= digits.take(i - start));
            assert(seen.last() == c);
            lemma_digits_grow(digits, i - start + 1);
        }
        if c < '0' || c > '9' {
            return None;
        }
        value = value * 10 + (c as u32 - '0' as u32);
        if value > 65535 {
            return None;
        }
        i += 1;
    }
    proof {
        assert(digits.take(digits.len() as int) =~= digits);
    }
    Some(value as u16)
}

/// Where, if anywhere, the configuration `root` fails to describe a service:
/// the first of the four keys that is missing, or the port's text where it
/// writes no port.
pub open spec fn service_fault(root: JsonModel) -> Option<MailFault> {
    if lookup(root, "SERVICE.PROVIDER"@) is None {
        Some(MailFault::Missing("SERVICE.PROVIDER"@))
    } else if lookup(root, "SERVICE.PORT"@) is None {
        Some(MailFault::Missing("SERVICE.PORT"@))
    } else if port_of(lookup(root, "SERVICE.PORT"@)->0) is None {
        Some(MailFault::Port)
    } else if lookup(root, "SERVICE.USERNAME"@) is None {
        Some(MailFault::Missing("SERVICE.USERNAME"@))
    } else if lookup(root, "SERVICE.PASSWORD"@) is None {
        Some(MailFault::Missing("SERVICE.PASSWORD"@))
    } else {
        None
    }
}

/// What can be wrong with a service's description.
pub ghost enum MailFault {
    /// No text stands under this key.
    Missing(Seq<char>),
    /// The port's text writes no port.
    Port,
}

#[verifier::external_type_specification]
#[verifier::external_body]
pub struct ExMailbox(lettre::message::Mailbox);

#[verifier::external_type_specification]
#[verifier::external_body]
pub struct ExAddressError(lettre::address::AddressError);

#[verifier::external_type_specification]
#[verifier::external_body]
pub struct ExLetter(lettre::Message);

#[verifier::external_type_specification]
#[verifier::external_body]
pub struct ExLetterError(lettre::error::Error);

/// Whether `lettre` reads `text` as a mailbox: an address, alone or after a
/// display name and then in angle brackets.
pub uninterp spec fn mailbox_accepted(text: Seq<char>) -> bool;

/// `<lettre::message::Mailbox as FromStr>::from_str`: whether the text is
/// accepted depends on the text alone.
#[verifier::external_body]
fn parse_mailbox(text: &str) -> (r: Result<lettre::message::Mailbox, lettre::address::AddressError>)
    ensures
        r is Ok <==> mailbox_accepted(text@),
{
    text.parse::<lettre::message::Mailbox>()
}

/// `lettre::Message::builder`, with sender, recipient, subject, the content
/// type of plain text, and the body. The message carries the time at which
/// it was built, so nothing is said of it.
#[verifier::external_body]
fn build_letter(
    from: lettre::message::Mailbox,
    to: lettre::message::Mailbox,
    subject: String,
    content: String,
) -> Result<lettre::Message, lettre::error::Error> {
    lettre::Message::builder().from(from).to(to).subject(subject).header(
        lettre::message::header::ContentType::TEXT_PLAIN,
    ).body(content)
}

impl MailService {
    /// Reads the service from `conf`: provider, port, user name and password
    /// under `SERVICE`, asked for in this order. The first that is missing,
    /// or the port where its text writes none, is the error.
    pub fn load(conf: &Config) -> (r: Result<MailService, MailError>)
        ensures
            match r {
                Ok(service) => {
                    &&& service_fault(conf@) is None
                    &&& lookup(conf@, "SERVICE.PROVIDER"@) == Some(service@.provider)
                    &&& port_of(lookup(conf@, "SERVICE.PORT"@)->0) == Some(service@.port)
                    &&& lookup(conf@, "SERVICE.USERNAME"@) == Some(service@.username)
                    &&& lookup(conf@, "SERVICE.PASSWORD"@) == Some(service@.password)
                },
                Err(MailError::External(ConfigError::ConfigNoSuchKey(k))) => service_fault(conf@)
                    == Some(MailFault::Missing(k@)),
                Err(MailError::ConfigErrorCannotParsePortU16) => service_fault(conf@) == Some(
                    MailFault::Port,
                ),
                Err(_) => false,
            },
    {
        let provider = match conf.get("SERVICE.PROVIDER") {
            Ok(text) => text,
            Err(e) => {
                return Err(MailError::External(e));
            },
        };
        let port = match conf.get("SERVICE.PORT") {
            Ok(text) => text,
            Err(e) => {
                return Err(MailError::External(e));
            },
        };
        let port = match parse_port(port.as_str()) {
            Some(n) => n,
            None => {
                return Err(MailError::ConfigErrorCannotParsePortU16);
            },
        };
        let username = match conf.get("SERVICE.USERNAME") {
            Ok(text) => text,
            Err(e) => {
                return Err(MailError::External(e));
            },
        };
        let password = match conf.get("SERVICE.PASSWORD") {
            Ok(text) => text,
            Err(e) => {
                return Err(MailError::External(e));
            },
        };
        Ok(MailService { provider, port, username, password })
    }

    /// The service with these four values.
    pub fn new(provider: String, port: u16, username: String, password: String) -> (service:
        MailService)
        ensures
            service@ == (ServiceView {
                provider: provider@,
                port,
                username: username@,
                password: password@,
            }),
    {
        MailService { provider, port, username, password }
    }

    /// The relay's host name.
    pub fn provider(&self) -> (out: &String)
        ensures
            out@ == self@.provider,
    {
        &self.provider
    }

    /// The relay's port.
    pub fn port(&self) -> (out: u16)
        ensures
            out == self@.port,
    {
        self.port
    }

    /// The account's name.
    pub fn username(&self) -> (out: &String)
        ensures
            out@ == self@.username,
    {
        &self.username
    }

    /// The account's password.
    pub fn password(&self) -> (out: &String)
        ensures
            out@ == self@.password,
    {
        &self.password
    }

    /// What the connection test means for the run. `relay_built` says
    /// whether a transport to the provider could be set up at all, `tested`
    /// what the relay answered to the test, `None` where the test itself
    /// failed. Only a relay that answered yes lets the run go on.
    pub fn preflight(&self, relay_built: bool, tested: Option<bool>) -> (r: Result<(), MailError>)
        ensures
            !relay_built ==> (r matches Err(MailError::SMTPWrongProvider(who)) && who@
                == self@.provider),
            relay_built && tested != Some(true) ==> (r matches Err(
                MailError::SMTPTestConnectionFailure(who),
            ) && who@ == self@.provider),
            relay_built && tested == Some(true) ==> r is Ok,
    {
        if !relay_built {
            return Err(MailError::SMTPWrongProvider(self.provider.clone()));
        }
        match tested {
            Some(true) => Ok(()),
            _ => Err(MailError::SMTPTestConnectionFailure(self.provider.clone())),
        }
    }

    /// Makes `message` ready for the relay. The sender's text must be a
    /// mailbox, then the recipient's; the first that is none is the error.
    pub fn compose(&self, message: MailMessage) -> (r: Result<lettre::Message, MailError>)
        ensures
            !mailbox_accepted(message@.from) ==> (r matches Err(
                MailError::SMTPWrongAddressFormat(text),
            ) && text@ == message@.from),
            mailbox_accepted(message@.from) && !mailbox_accepted(message@.to) ==> (r matches Err(
                MailError::SMTPWrongAddressFormat(text),
            ) && text@ == message@.to),
            mailbox_accepted(message@.from) && mailbox_accepted(message@.to) ==> r is Ok
                || r is Err && r->Err_0 is SMTPCannotBuildMessage,
    {
        let from = parse_mailbox(message.from.as_str());
        let to = parse_mailbox(message.to.as_str());
        seal(message, from, to)
    }

    /// What the relay's answer means for the mail to `to`: `transmitted`
    /// says whether the relay took it.
    pub fn conclude(&self, to: String, transmitted: bool) -> (r: Result<(), MailError>)
        ensures
            transmitted ==> r is Ok,
            !transmitted ==> (r matches Err(MailError::SMTPMailSendingFailure(who)) && who@
                == to@),
    {
        if transmitted {
            Ok(())
        } else {
            Err(MailError::SMTPMailSendingFailure(to))
        }
    }
}

/// Puts the mail together from `message` and its two mailboxes as they were
/// read. A sender that was not read is the error, then a recipient that was
/// not; with both, the mail is built.
pub fn seal(
    message: MailMessage,
    from: Result<lettre::message::Mailbox, lettre::address::AddressError>,
    to: Result<lettre::message::Mailbox, lettre::address::AddressError>,
) -> (r: Result<lettre::Message, MailError>)
    ensures
        from is Err ==> (r matches Err(MailError::SMTPWrongAddressFormat(text)) && text@
            == message@.from),
        from is Ok && to is Err ==> (r matches Err(MailError::SMTPWrongAddressFormat(text))
            && text@ == message@.to),
        from is Ok && to is Ok ==> r is Ok || r is Err && r->Err_0 is SMTPCannotBuildMessage,
{
    let from = match from {
        Ok(mailbox) => mailbox,
        Err(_) => {
            return Err(MailError::SMTPWrongAddressFormat(message.from));
        },
    };
    let to = match to {
        Ok(mailbox) => mailbox,
        Err(_) => {
            return Err(MailError::SMTPWrongAddressFormat(message.to));
        },
    };
    match build_letter(from, to, message.subject, message.content) {
        Ok(letter) => Ok(letter),
        Err(_) => Err(MailError::SMTPCannotBuildMessage),
    }
}

} // verus!
