use crate::discord::views;
use vstd::prelude::*;
use vstd::string::*;

verus! {

/// The fields of the webhook message made of one mail.
pub struct WebhookMessage {
    pub title: String,
    pub from: String,
    pub to: String,
    pub body: String,
}

/// The lines of `v` joined by newlines.
pub open spec fn join_lines(v: Seq<Seq<char>>) -> Seq<char>
    decreases v.len(),
{
    if v.len() == 0 {
        seq![]
    } else if v.len() == 1 {
        v[0]
    } else {
        join_lines(v.drop_last()) + seq!['\n'] + v.last()
    }
}

/// Joins strings with a newline between each two, as the recipients field shows them.
pub fn join_lines_of(v: &Vec<String>) -> (r: String)
    ensures
        r@ == join_lines(views(v@)),
{
    let mut out = String::new();
    let mut i: usize = 0;
    proof {
        reveal_strlit("\n");
        assert(views(v@).subrange(0, 0).len() == 0);
    }
    while i < v.len()
        invariant
            i <= v@.len(),
            out@ == join_lines(views(v@).subrange(0, i as int)),
        decreases v@.len() - i,
    {
        let ghost before = views(v@).subrange(0, i as int);
        let ghost after = views(v@).subrange(0, i + 1);
        assert(after.drop_last() =~= before);
        assert(after.last() == v@[i as int]@);
        if i > 0 {
            proof {
                reveal_strlit("\n");
            }
            out.append("\n");
        }
        out.append(v[i].as_str());
        proof {
            if i == 0 {
                assert(out@ =~= after[0]);
            } else {
                assert(out@ =~= join_lines(before) + seq!['\n'] + after.last());
            }
        }
        i = i + 1;
    }
    assert(views(v@).subrange(0, v@.len() as int) =~= views(v@));
    out
}

/// The title every message made of a mail carries.
pub open spec fn message_title() -> Seq<char> {
    "New Email"@
}

/// Makes the message for one mail: a fixed title, the sender, the recipients one per
/// line, and the body.
pub fn embed_fields(from: &String, recipients: &Vec<String>, body: &String) -> (r: WebhookMessage)
    ensures
        r.title@ == message_title(),
        r.from@ == from@,
        r.to@ == join_lines(views(recipients@)),
        r.body@ == body@,
{
    WebhookMessage {
        title: String::from_str("New Email"),
        from: from.clone(),
        to: join_lines_of(recipients),
        body: body.clone(),
    }
}

} // verus!
