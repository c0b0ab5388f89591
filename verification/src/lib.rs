//! Reads contact cards, finds whose birthday falls on the current day,
//! and prepares the notifications to send: a verified contact-card
//! parser with a quoted-printable name decoder, and the
//! birthday-matching logic around it.
use vstd::prelude::*;
use vstd::string::*;

pub mod date;
pub mod notifications;
mod text;
pub mod vcard;

use crate::date::{today, Date};
use crate::notifications::{Notifier, NotifierError};
use crate::text::{has_suffix, spec_has_suffix, str_eq};
use crate::vcard::{VCard, VCardView};

verus! {

/// What the program runs on: the card file to read and the application
/// identity the Windows notification service wants.
#[derive(Debug)]
pub struct Config {
    pub file_path: String,
    pub windows_app_id: String,
}

/// The application identity the environment provides: the value of the
/// first `REMEMBER_BDAY_APP_ID` variable, or the fixed default.
pub open spec fn spec_app_id(envs: Seq<(Seq<char>, Seq<char>)>) -> Seq<char>
    decreases envs.len(),
{
    if envs.len() == 0 {
        "remember-bday"@
    } else if envs[0].0 == "REMEMBER_BDAY_APP_ID"@ {
        envs[0].1
    } else {
        spec_app_id(envs.drop_first())
    }
}

/// The application identity among the given environment variables, per
/// [`spec_app_id`].
fn find_app_id(env_vars: &Vec<(String, String)>) -> (r: String)
    ensures
        r@ == spec_app_id(env_vars.deep_view()),
{
    let ghost envs = env_vars.deep_view();
    let mut i: usize = 0;
    proof {
        assert(envs.skip(0) =~= envs);
    }
    while i < env_vars.len()
        invariant
            envs == env_vars.deep_view(),
            envs.len() == env_vars@.len(),
            i <= env_vars@.len(),
            spec_app_id(envs) == spec_app_id(envs.skip(i as int)),
        decreases env_vars@.len() - i,
    {
        proof {
            assert(envs.skip(i as int)[0] == envs[i as int]);
            assert(envs.skip(i as int).drop_first() =~= envs.skip(i + 1));
        }
        if str_eq(env_vars[i].0.as_str(), "REMEMBER_BDAY_APP_ID") {
            return env_vars[i].1.clone();
        }
        i += 1;
    }
    proof {
        assert(envs.skip(i as int) =~= Seq::<(Seq<char>, Seq<char>)>::empty());
    }
    String::from_str("remember-bday")
}

impl Config {
    /// Builds the configuration from the process's arguments and
    /// environment, both handed over as plain values: the second
    /// argument must name a `.vcf` file, and the application identity
    /// comes from the first `REMEMBER_BDAY_APP_ID` variable, with a
    /// fixed default.
    pub fn build(args: Vec<String>, env_vars: Vec<(String, String)>) -> (r: Result<
        Config,
        &'static str,
    >)
        ensures
            r is Ok <==> (args.deep_view().len() >= 2 && spec_has_suffix(
                args.deep_view()[1],
                ".vcf"@,
            )),
            r is Ok ==> (r->Ok_0).file_path@ == args.deep_view()[1] && (
            r->Ok_0).windows_app_id@ == spec_app_id(env_vars.deep_view()),
            r is Err ==> r->Err_0@ == "Didn't get path to a vcf file"@,
    {
        if args.len() < 2 {
            return Err("Didn't get path to a vcf file");
        }
        let path = &args[1];
        proof {
            assert(args.deep_view()[1] == args@[1]@);
        }
        if !has_suffix(path.as_str(), ".vcf") {
            return Err("Didn't get path to a vcf file");
        }
        let windows_app_id = find_app_id(&env_vars);
        Ok(Config { file_path: path.clone(), windows_app_id })
    }
}

/// Whether a contact's birth date falls on `today`'s month and day.
pub open spec fn bday_matches(bday: Option<Date>, today: Date) -> bool {
    match bday {
        Some(d) => d.month == today.month && d.day == today.day,
        None => false,
    }
}

/// The message a birthday notification carries.
pub open spec fn bday_message(name: Seq<char>) -> Seq<char> {
    "It's "@ + name + "'s birthday today!"@
}

/// The notification messages due on `today`: one per contact whose birth
/// date falls on its month and day, in contact order.
pub open spec fn due_messages(cards: Seq<VCardView>, today: Date) -> Seq<Seq<char>>
    decreases cards.len(),
{
    if cards.len() == 0 {
        Seq::empty()
    } else if bday_matches(cards[0].bday, today) {
        seq![bday_message(cards[0].name)] + due_messages(cards.drop_first(), today)
    } else {
        due_messages(cards.drop_first(), today)
    }
}

/// The notification messages due on `today`, per [`due_messages`].
pub fn birthday_messages(vcards: &Vec<VCard>, today: Date) -> (r: Vec<String>)
    ensures
        r.deep_view() == due_messages(vcards.deep_view(), today),
{
    let ghost cards = vcards.deep_view();
    let mut msgs: Vec<String> = Vec::new();
    let mut i: usize = 0;
    proof {
        assert(cards.skip(0) =~= cards);
        assert(msgs.deep_view() + due_messages(cards, today) =~= due_messages(cards, today));
    }
    while i < vcards.len()
        invariant
            cards == vcards.deep_view(),
            cards.len() == vcards@.len(),
            i <= vcards@.len(),
            due_messages(cards, today) == msgs.deep_view() + due_messages(
                cards.skip(i as int),
                today,
            ),
        decreases vcards@.len() - i,
    {
        proof {
            assert(cards.skip(i as int)[0] == cards[i as int]);
            assert(cards.skip(i as int).drop_first() =~= cards.skip(i + 1));
        }
        let card = &vcards[i];
        if let Some(d) = card.bday {
            if d.month == today.month && d.day == today.day {
                let ghost old_msgs = msgs.deep_view();
                let m = String::from_str("It's ").concat(card.name.as_str()).concat(
                    "'s birthday today!",
                );
                msgs.push(m);
                proof {
                    assert(msgs.deep_view() =~= old_msgs.push(bday_message(cards[i as int].name)));
                    assert(msgs.deep_view() + due_messages(cards.skip(i + 1), today) =~= old_msgs
                        + (seq![bday_message(cards[i as int].name)] + due_messages(
                        cards.skip(i + 1),
                        today,
                    )));
                }
            }
        }
        i += 1;
    }
    proof {
        assert(cards.skip(i as int) =~= Seq::<VCardView>::empty());
        assert(msgs.deep_view() + Seq::<Seq<char>>::empty() =~= msgs.deep_view());
    }
    msgs
}

/// Lets every due message through the sink in order, stopping at the
/// first delivery failure.
fn deliver_all<N: Notifier + ?Sized>(notifier: &N, msgs: Vec<String>) -> (r: Result<
    (),
    NotifierError,
>)
    ensures
        msgs@.len() == 0 ==> r is Ok,
{
    let mut i: usize = 0;
    while i < msgs.len()
        invariant
            i <= msgs@.len(),
        decreases msgs@.len() - i,
    {
        match notifier.send_notification(msgs[i].clone()) {
            Ok(u) => u,
            Err(e) => {
                return Err(e);
            },
        }
        i += 1;
    }
    Ok(())
}

/// Where no card's birth date falls on `today`, no message is due and
/// the run succeeds without touching the sink.
proof fn lemma_no_match_no_messages(cards: Seq<VCardView>, today: Date)
    requires
        forall|j: int| 0 <= j < cards.len() ==> !bday_matches(#[trigger] cards[j].bday, today),
    ensures
        due_messages(cards, today).len() == 0,
    decreases cards.len(),
{
    if cards.len() > 0 {
        assert(forall|j: int| 0 <= j < cards.drop_first().len() ==> #[trigger] cards.drop_first()[j]
            == cards[j + 1]);
        lemma_no_match_no_messages(cards.drop_first(), today);
    }
}

/// Sends one notification per contact whose birth date falls on
/// `today`'s month and day, in contact order, stopping at the first
/// delivery failure; with no due message the sink is never touched and
/// the run succeeds.
pub fn send_bday_notifications_on<N: Notifier + ?Sized>(
    notifier: &N,
    vcards: &Vec<VCard>,
    today: Date,
) -> (r: Result<(), NotifierError>)
    ensures
        due_messages(vcards.deep_view(), today).len() == 0 ==> r is Ok,
{
    let msgs = birthday_messages(vcards, today);
    deliver_all(notifier, msgs)
}

/// Sends one notification per contact whose birth date falls on the
/// current day; a run over contacts without birth dates always succeeds.
pub fn send_bday_notifications<N: Notifier + ?Sized>(notifier: &N, vcards: Vec<VCard>) -> (r:
    Result<(), NotifierError>)
    ensures
        (forall|j: int|
            0 <= j < vcards.deep_view().len() ==> (#[trigger] vcards.deep_view()[j].bday)
                is None) ==> r is Ok,
{
    let now = today();
    proof {
        if forall|j: int|
            0 <= j < vcards.deep_view().len() ==> (#[trigger] vcards.deep_view()[j].bday)
                is None {
            lemma_no_match_no_messages(vcards.deep_view(), now);
        }
    }
    send_bday_notifications_on(notifier, &vcards, now)
}

} // verus!
