//! Logging in: by the session's secret, which the user gives, or by a QR
//! code, which the user scans.
use vstd::prelude::*;
use crate::network::QRStatus;
use crate::network::QRStatusView;

verus! {

/// How to log in.
#[derive(Debug, Clone)]
pub enum LoginMethod {
    /// With the session's secret.
    SESSDATA(String),
    /// With a QR code.
    QRCODE,
}

/// What the `login` command is to do.
#[derive(Debug, Clone)]
pub enum LoginChoice {
    /// Both ways were asked for, and only one can be taken.
    Conflict,
    /// The secret was announced and not given.
    MissingSecret,
    /// Log in this way.
    Login(LoginMethod),
    /// No way was asked for: show who is logged in.
    ShowInfo,
}

/// Chooses what the `login` command does from its arguments: whether the
/// secret was announced, its value if one came with it, and whether the
/// QR code was asked for.
pub fn choose_login(secret_flag: bool, secret: Option<String>, qrcode: bool) -> (choice: LoginChoice)
    ensures
        choice == if secret_flag && qrcode {
            LoginChoice::Conflict
        } else if secret_flag {
            match secret {
                Some(value) => LoginChoice::Login(LoginMethod::SESSDATA(value)),
                None => LoginChoice::MissingSecret,
            }
        } else if qrcode {
            LoginChoice::Login(LoginMethod::QRCODE)
        } else {
            LoginChoice::ShowInfo
        },
{
    if secret_flag && qrcode {
        LoginChoice::Conflict
    } else if secret_flag {
        match secret {
            Some(value) => LoginChoice::Login(LoginMethod::SESSDATA(value)),
            None => LoginChoice::MissingSecret,
        }
    } else if qrcode {
        LoginChoice::Login(LoginMethod::QRCODE)
    } else {
        LoginChoice::ShowInfo
    }
}

/// What a login by QR code waits for.
#[derive(Debug, Clone, Copy, PartialEq, Eq, Structural)]
pub enum Waiting {
    /// For the code to be scanned.
    Scan,
    /// For the scanned code to be confirmed.
    Confirm,
}

/// What to do after a poll of a login by QR code.
#[derive(Debug, Clone)]
pub enum PollAction {
    /// Go on waiting as before.
    Keep,
    /// Say that the login now waits for something else, and go on.
    Announce(Waiting),
    /// The login is confirmed: keep the secret.
    Finish(String),
    /// The code is no longer valid.
    GiveUp,
}

/// A poll action as plain values.
pub enum PollActionView {
    Keep,
    Announce(Waiting),
    Finish(Seq<char>),
    GiveUp,
}

impl View for PollAction {
    type V = PollActionView;

    open spec fn view(&self) -> PollActionView {
        match *self {
            PollAction::Keep => PollActionView::Keep,
            PollAction::Announce(waiting) => PollActionView::Announce(waiting),
            PollAction::Finish(secret) => PollActionView::Finish(secret@),
            PollAction::GiveUp => PollActionView::GiveUp,
        }
    }
}

/// What follows a poll: a change of what is waited for is announced, a
/// confirmed login ends the polling with the secret, a code that is no
/// longer valid ends it without.
pub open spec fn after_poll(waiting: Waiting, status: QRStatusView) -> PollActionView {
    match status {
        QRStatusView::NotScan => if waiting is Scan {
            PollActionView::Keep
        } else {
            PollActionView::Announce(Waiting::Scan)
        },
        QRStatusView::Scanning => if waiting is Confirm {
            PollActionView::Keep
        } else {
            PollActionView::Announce(Waiting::Confirm)
        },
        QRStatusView::Complete(secret) => PollActionView::Finish(secret),
        QRStatusView::Invalid => PollActionView::GiveUp,
    }
}

/// Says what to do after a poll of a login by QR code that waits for
/// `waiting`.
pub fn poll_step(waiting: Waiting, status: QRStatus) -> (action: PollAction)
    ensures
        action@ == after_poll(waiting, status@),
{
    match status {
        QRStatus::NotScan => match waiting {
            Waiting::Scan => PollAction::Keep,
            Waiting::Confirm => PollAction::Announce(Waiting::Scan),
        },
        QRStatus::Scanning => match waiting {
            Waiting::Confirm => PollAction::Keep,
            Waiting::Scan => PollAction::Announce(Waiting::Confirm),
        },
        QRStatus::Complete(secret) => PollAction::Finish(secret),
        QRStatus::Invalid => PollAction::GiveUp,
    }
}

} // verus!
