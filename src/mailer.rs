use crate::discord::DiscordWebhookAuth;
use crate::dispatch::{submit_step, DiscordWebhookCommand, DispatchQueue};
use vstd::prelude::*;
use vstd::utf8::{decode_utf8, valid_utf8};

verus! {

/// One accepted mail, complete and no longer changing.
pub struct Mail {
    /// Id the mail session gave the mail
    pub id: String,
    /// The sender
    pub sender: String,
    /// The recipients, in the order they were accepted
    pub recipients: Vec<String>,
    /// The raw body
    pub body: Vec<u8>,
}

/// `cmd` is the command that sends `mail`: its sender and recipients, and its body as text.
pub open spec fn command_for(mail: Mail, cmd: DiscordWebhookCommand) -> bool {
    match cmd {
        DiscordWebhookCommand::SendMessage { from, recipients, body } => from == mail.sender
            && recipients == mail.recipients && valid_utf8(mail.body@) && body@ == decode_utf8(
            mail.body@,
        ),
        DiscordWebhookCommand::Shutdown => false,
    }
}

/// Relies on `String::from_utf8`: it succeeds exactly on valid UTF-8, with the text decoded.
#[verifier::external_body]
fn text_of(bytes: Vec<u8>) -> (r: Option<String>)
    ensures
        r is Some <==> valid_utf8(bytes@),
        r is Some ==> r->0@ == decode_utf8(bytes@),
{
    String::from_utf8(bytes).ok()
}

/// Relies on `Vec::shrink_to_fit`: it frees spare capacity and keeps the elements.
#[verifier::external_body]
fn shrink_buffer(v: &mut Vec<u8>)
    ensures
        final(v)@ == old(v)@,
{
    v.shrink_to_fit()
}

impl Mail {
    /// The command that sends this mail, or none where the body is not UTF-8 text.
    pub fn into_command(self) -> (r: Option<DiscordWebhookCommand>)
        ensures
            r is Some <==> valid_utf8(self.body@),
            r is Some ==> command_for(self, r->0),
    {
        let Mail { id: _, sender, recipients, body } = self;
        match text_of(body) {
            Some(text) => Some(DiscordWebhookCommand::send_message(sender, recipients, text)),
            None => None,
        }
    }
}

/// Collects the body of one mail, chunk by chunk, as the mail session receives it.
pub struct DiscordMailSink {
    id: String,
    from: String,
    recipients: Vec<String>,
    body: Vec<u8>,
}

impl DiscordMailSink {
    pub closed spec fn id(&self) -> String {
        self.id
    }

    pub closed spec fn from(&self) -> String {
        self.from
    }

    pub closed spec fn recipients(&self) -> Vec<String> {
        self.recipients
    }

    /// The bytes received so far.
    pub closed spec fn body(&self) -> Seq<u8> {
        self.body@
    }

    /// The mail that finishing now would give.
    pub closed spec fn as_mail(&self) -> Mail {
        Mail { id: self.id, sender: self.from, recipients: self.recipients, body: self.body }
    }

    /// Starts a mail with its envelope and an empty body.
    pub fn new(id: String, from: String, recipients: Vec<String>) -> (r: Self)
        ensures
            r.id() == id,
            r.from() == from,
            r.recipients() == recipients,
            r.body() == Seq::<u8>::empty(),
    {
        DiscordMailSink { id, from, recipients, body: Vec::new() }
    }

    /// Appends a chunk of the body; never refuses one.
    pub fn start_send(&mut self, item: &[u8])
        ensures
            final(self).body() == old(self).body() + item@,
            final(self).id() == old(self).id(),
            final(self).from() == old(self).from(),
            final(self).recipients() == old(self).recipients(),
    {
        let mut i: usize = 0;
        let ghost start = self.body@;
        while i < item.len()
            invariant
                i <= item@.len(),
                self.body@ == start + item@.subrange(0, i as int),
                self.id == old(self).id,
                self.from == old(self).from,
                self.recipients == old(self).recipients,
            decreases item@.len() - i,
        {
            self.body.push(item[i]);
            assert(start + item@.subrange(0, i + 1) =~= (start + item@.subrange(0, i as int)).push(
                item@[i as int],
            ));
            i = i + 1;
        }
        assert(item@.subrange(0, item@.len() as int) =~= item@);
    }

    /// Ends the mail: the envelope and every byte received, in order.
    pub fn finalize(self) -> (r: Mail)
        ensures
            r.id == self.id(),
            r.sender == self.from(),
            r.recipients == self.recipients(),
            r.body@ == self.body(),
    {
        let DiscordMailSink { id, from, recipients, body } = self;
        let mut body = body;
        shrink_buffer(&mut body);
        Mail { id, sender: from, recipients, body }
    }

    /// Hands the finished mail to the dispatch queue. Where the body is not UTF-8 text the
    /// mail fails at once and the queue is left as it was; else the hand-off is taken
    /// exactly when the queue accepts.
    pub fn queue<R>(self, dispatch: &mut DispatchQueue<R>, reply: R) -> (r: bool)
        requires
            old(dispatch).wf(),
        ensures
            final(dispatch).wf(),
            !valid_utf8(self.body()) ==> !r && final(dispatch).state() == old(dispatch).state(),
            valid_utf8(self.body()) ==> exists|cmd: DiscordWebhookCommand|
                command_for(self.as_mail(), cmd) && (final(dispatch).state(), r) == #[trigger] submit_step(
                    old(dispatch).state(),
                    cmd,
                    reply,
                ),
    {
        let ghost this = self.as_mail();
        let mail = self.finalize();
        assert(mail.body@ == this.body@);
        match mail.into_command() {
            None => false,
            Some(cmd) => dispatch.submit(cmd, reply),
        }
    }
}

/// What the recipient gate decided.
pub enum AcceptRecipientResult {
    /// The recipient is taken as given
    Accepted(String),
    /// The recipient is refused, for the reason given
    Rejected(String),
}

/// The mail service: its name, the recipient gate, and the webhook it delivers to.
pub struct DiscordMailer {
    name: String,
    webhook_auth: DiscordWebhookAuth,
}

impl DiscordMailer {
    pub closed spec fn spec_name(&self) -> Seq<char> {
        self.name@
    }

    pub closed spec fn spec_auth(&self) -> DiscordWebhookAuth {
        self.webhook_auth
    }

    /// Makes the service with its name and the webhook it delivers to.
    pub fn new(name: &str, webhook_auth: DiscordWebhookAuth) -> (r: Self)
        ensures
            r.spec_name() == name@,
            r.spec_auth() == webhook_auth,
    {
        DiscordMailer { name: name.to_owned(), webhook_auth }
    }

    /// The service name given to mail clients.
    pub fn name(&self) -> (r: String)
        ensures
            r@ == self.spec_name(),
    {
        self.name.clone()
    }

    /// The webhook the service delivers to.
    pub fn webhook_auth(&self) -> (r: &DiscordWebhookAuth)
        ensures
            *r == self.spec_auth(),
    {
        &self.webhook_auth
    }

    /// Decides on a proposed recipient: every recipient is accepted as given.
    pub fn accept(&self, rcpt: String) -> (r: AcceptRecipientResult)
        ensures
            r == AcceptRecipientResult::Accepted(rcpt),
    {
        AcceptRecipientResult::Accepted(rcpt)
    }

    /// Starts collecting one mail with the given envelope.
    pub fn mail(&self, id: String, from: String, recipients: Vec<String>) -> (r: DiscordMailSink)
        ensures
            r.id() == id,
            r.from() == from,
            r.recipients() == recipients,
            r.body() == Seq::<u8>::empty(),
    {
        DiscordMailSink::new(id, from, recipients)
    }
}

/// Builds a mail service, with a name of its own or the default one.
pub struct DiscordMailerBuilder {
    name: Option<String>,
}

/// The service name used when none is given.
pub open spec fn default_name() -> Seq<char> {
    "DiscordMailer"@
}

impl DiscordMailerBuilder {
    pub closed spec fn spec_name(&self) -> Option<Seq<char>> {
        match self.name {
            Some(n) => Some(n@),
            None => None,
        }
    }

    /// A builder with no name set.
    pub fn new() -> (r: Self)
        ensures
            r.spec_name() is None,
    {
        DiscordMailerBuilder { name: None }
    }

    /// Sets the service name.
    pub fn with_name(self, name: &str) -> (r: Self)
        ensures
            r.spec_name() == Some(name@),
    {
        DiscordMailerBuilder { name: Some(name.to_owned()) }
    }

    /// Makes the service: the name set, else the default one.
    pub fn build(self, webhook_auth: DiscordWebhookAuth) -> (r: DiscordMailer)
        ensures
            r.spec_name() == match self.spec_name() {
                Some(n) => n,
                None => default_name(),
            },
            r.spec_auth() == webhook_auth,
    {
        match self.name {
            Some(n) => DiscordMailer::new(n.as_str(), webhook_auth),
            None => DiscordMailer::new("DiscordMailer", webhook_auth),
        }
    }
}

} // verus!
