//! What the remote side says: the index of a work, the pages of an
//! episode, a user's account, the state of a login by QR code. The
//! requests themselves are made elsewhere; here is what is read out of the
//! answers and what is made of it.
use vstd::prelude::*;
use crate::range::HasOrd;
use crate::text::chars_of;
use crate::text::find;
use crate::text::first_occurrence;
use crate::text::push_str;
use crate::text::string_of;
use crate::text::texts;
use crate::text::trim_chars;
use crate::text::trimmed;
use crate::text::up_to;

verus! {

/// A user's account.
#[derive(Debug, Clone)]
pub struct UserInfo {
    pub name: String,
    /// The coins left in the user's wallet.
    pub coin: i64,
}

/// Where a login by QR code stands.
#[derive(Debug, Clone)]
pub enum QRStatus {
    /// The code was not scanned yet.
    NotScan,
    /// The code was scanned and waits to be confirmed.
    Scanning,
    /// The login is confirmed; the value is the session's secret.
    Complete(String),
    /// The code is no longer valid.
    Invalid,
}

/// One episode of a work's remote index.
#[derive(Debug, Clone)]
pub struct EpisodeInfo {
    pub title: String,
    pub id: u32,
    pub is_locked: bool,
    pub is_in_free: bool,
    /// The ordering key of the episode.
    pub ord: i64,
}

/// An episode of the index as plain values.
pub struct EpisodeInfoView {
    pub title: Seq<char>,
    pub id: u32,
    pub is_locked: bool,
    pub is_in_free: bool,
    pub ord: i64,
}

impl View for EpisodeInfo {
    type V = EpisodeInfoView;

    open spec fn view(&self) -> EpisodeInfoView {
        EpisodeInfoView {
            title: self.title@,
            id: self.id,
            is_locked: self.is_locked,
            is_in_free: self.is_in_free,
            ord: self.ord,
        }
    }
}

impl HasOrd for EpisodeInfo {
    open spec fn ord_key(&self) -> i64 {
        self.ord
    }

    fn ord(&self) -> (key: i64) {
        self.ord
    }
}

/// The remote index of a work.
#[derive(Debug, Clone)]
pub struct ComicInfo {
    pub id: u32,
    pub title: String,
    pub author_name: Vec<String>,
    pub styles: Vec<String>,
    pub ep_list: Vec<EpisodeInfo>,
    pub vertical_cover: String,
}

/// The pages of an episode: the host that serves them and their paths, in
/// page order.
#[derive(Debug, Clone)]
pub struct EpisodeImages {
    pub host: String,
    pub paths: Vec<String>,
}

/// The pages of an episode as plain values.
pub struct EpisodeImagesView {
    pub host: Seq<char>,
    pub paths: Seq<Seq<char>>,
}

impl View for EpisodeImages {
    type V = EpisodeImagesView;

    open spec fn view(&self) -> EpisodeImagesView {
        EpisodeImagesView { host: self.host@, paths: texts(self.paths@) }
    }
}

/// Whether a character cannot stand in a file name.
pub open spec fn is_illegal(c: char) -> bool {
    c == '/' || c == '\\' || c == ':' || c == '*' || c == '?' || c == '"' || c == '<' || c == '>'
        || c == '|'
}

/// A title with an underscore in the place of each character that cannot
/// stand in a file name.
pub open spec fn sanitized(title: Seq<char>) -> Seq<char> {
    title.map_values(
        |c: char|
            if is_illegal(c) {
                '_'
            } else {
                c
            },
    )
}

/// The characters of a title, with an underscore for each that cannot
/// stand in a file name.
fn fix_chars(title: &Vec<char>) -> (fixed: Vec<char>)
    ensures
        fixed@ == sanitized(title@),
{
    let mut fixed: Vec<char> = Vec::new();
    let mut i: usize = 0;
    while i < title.len()
        invariant
            i <= title.len(),
            fixed@ == sanitized(title@.take(i as int)),
        decreases title.len() - i,
    {
        let c = title[i];
        let illegal = c == '/' || c == '\\' || c == ':' || c == '*' || c == '?' || c == '"' || c
            == '<' || c == '>' || c == '|';
        if illegal {
            fixed.push('_');
        } else {
            fixed.push(c);
        }
        assert(fixed@ =~= sanitized(title@.take(i + 1)));
        i += 1;
    }
    proof {
        assert(title@.take(title.len() as int) == title@);
    }
    fixed
}

/// Puts an underscore in the place of each character of a title that
/// cannot stand in a file name.
pub fn fix_episode_title(title: &str) -> (fixed: String)
    ensures
        fixed@ == sanitized(title@),
{
    let chars = chars_of(title);
    let fixed = fix_chars(&chars);
    string_of(&fixed)
}

/// The title that is made for an episode without one, from the text of its
/// number.
pub open spec fn numbered_title(ord_text: Seq<char>) -> Seq<char> {
    seq!['\u{7b2c}'] + ord_text + seq!['\u{8bdd}']
}

/// The title under which an episode is kept: the given title without the
/// white space around it, or, where nothing is left of it, the title made
/// from the episode's number; in either, without the characters that
/// cannot stand in a file name.
pub open spec fn kept_title(title: Seq<char>, ord_text: Seq<char>) -> Seq<char> {
    if trimmed(title).len() == 0 {
        sanitized(numbered_title(ord_text))
    } else {
        sanitized(trimmed(title))
    }
}

/// An episode of the index as it is kept: under its kept title, and not
/// locked where it is free.
pub open spec fn normalized(episode: EpisodeInfoView, ord_text: Seq<char>) -> EpisodeInfoView {
    EpisodeInfoView {
        title: kept_title(episode.title, ord_text),
        id: episode.id,
        is_locked: episode.is_locked && !episode.is_in_free,
        is_in_free: episode.is_in_free,
        ord: episode.ord,
    }
}

/// Makes an episode of the index fit to be kept. `ord_text` is the
/// episode's number as it is shown.
pub fn normalize_episode(episode: EpisodeInfo, ord_text: &str) -> (kept: EpisodeInfo)
    ensures
        kept@ == normalized(episode@, ord_text@),
{
    let chars = chars_of(episode.title.as_str());
    let bare = trim_chars(&chars);
    let title = if bare.len() == 0 {
        let mut made: Vec<char> = Vec::new();
        made.push('\u{7b2c}');
        push_str(&mut made, ord_text);
        made.push('\u{8bdd}');
        assert(made@ =~= numbered_title(ord_text@));
        made
    } else {
        bare
    };
    let fixed = fix_chars(&title);
    EpisodeInfo {
        title: string_of(&fixed),
        id: episode.id,
        is_locked: episode.is_locked && !episode.is_in_free,
        is_in_free: episode.is_in_free,
        ord: episode.ord,
    }
}

/// A kept episode has a title, in which no character stands that a file
/// name cannot hold, and it is locked only if it is not free.
pub proof fn law_kept_episode_is_named(episode: EpisodeInfoView, ord_text: Seq<char>)
    ensures
        normalized(episode, ord_text).title.len() > 0,
        forall|i: int|
            0 <= i < normalized(episode, ord_text).title.len() ==> !is_illegal(
                #[trigger] normalized(episode, ord_text).title[i],
            ),
        normalized(episode, ord_text).is_locked ==> !normalized(episode, ord_text).is_in_free,
{
}

/// An episode without a title is kept under the title made from its
/// number.
pub proof fn law_untitled_episode_is_numbered(episode: EpisodeInfoView, ord_text: Seq<char>)
    requires
        episode.title.len() == 0,
    ensures
        normalized(episode, ord_text).title == sanitized(numbered_title(ord_text)),
{
}

/// What the account service says of the session.
#[derive(Debug, Clone, Copy, PartialEq, Eq, Structural)]
pub enum SessionStatus {
    /// The session is valid.
    LoggedIn,
    /// Nobody is logged in, or the session has run out.
    LoggedOut,
    /// The answer is none that is known.
    Unknown,
}

/// Reads the code of the account service's answer.
pub fn session_status(code: i64) -> (status: SessionStatus)
    ensures
        status == if code == 0 {
            SessionStatus::LoggedIn
        } else if code == -101 {
            SessionStatus::LoggedOut
        } else {
            SessionStatus::Unknown
        },
{
    if code == 0 {
        SessionStatus::LoggedIn
    } else if code == -101 {
        SessionStatus::LoggedOut
    } else {
        SessionStatus::Unknown
    }
}

/// The mark that stands before the session's secret in the address that a
/// confirmed login by QR code returns.
pub open spec fn secret_mark() -> Seq<char> {
    seq!['S', 'E', 'S', 'S', 'D', 'A', 'T', 'A', '=']
}

/// The session's secret in an address: what follows the first mark, up to
/// the next mark and up to the next ampersand. An address without the mark
/// holds none.
pub open spec fn secret_in(url: Seq<char>) -> Option<Seq<char>> {
    match first_occurrence(url, secret_mark()) {
        Some(i) => Some(up_to(up_to(url.skip(i + 9), secret_mark()), seq!['&'])),
        None => None,
    }
}

/// Reads the session's secret out of an address.
pub fn session_secret(url: &str) -> (secret: Option<String>)
    ensures
        match secret {
            Some(text) => secret_in(url@) == Some(text@),
            None => secret_in(url@) is None,
        },
{
    let chars = chars_of(url);
    let mark: Vec<char> = vec!['S', 'E', 'S', 'S', 'D', 'A', 'T', 'A', '='];
    let amp: Vec<char> = vec!['&'];
    assert(mark@ =~= secret_mark());
    assert(amp@ =~= seq!['&']);
    assert(chars@.skip(0) == chars@);
    let start = match find(&chars, &mark, 0) {
        Some(i) => i + 9,
        None => {
            return None;
        },
    };
    let ghost after = chars@.skip(start as int);
    let end = match find(&chars, &mark, start) {
        Some(j) => j,
        None => chars.len(),
    };
    let mut piece: Vec<char> = Vec::new();
    let mut i: usize = start;
    while i < end
        invariant
            start <= i <= end <= chars.len(),
            piece@ == chars@.subrange(start as int, i as int),
        decreases end - i,
    {
        piece.push(chars[i]);
        assert(piece@ =~= chars@.subrange(start as int, i + 1));
        i += 1;
    }
    assert(piece@ == up_to(after, secret_mark())) by {
        assert(after.take(end - start) =~= chars@.subrange(start as int, end as int));
        assert(after =~= chars@.subrange(start as int, chars.len() as int));
    }
    assert(piece@.skip(0) == piece@);
    let stop = match find(&piece, &amp, 0) {
        Some(k) => k,
        None => piece.len(),
    };
    let mut secret: Vec<char> = Vec::new();
    let mut k: usize = 0;
    while k < stop
        invariant
            k <= stop <= piece.len(),
            secret@ == piece@.take(k as int),
        decreases stop - k,
    {
        secret.push(piece[k]);
        assert(secret@ =~= piece@.take(k + 1));
        k += 1;
    }
    assert(secret@ == up_to(piece@, seq!['&'])) by {
        assert(piece@.take(piece.len() as int) == piece@);
    }
    Some(string_of(&secret))
}

/// The state of a login by QR code, as plain values.
pub enum QRStatusView {
    NotScan,
    Scanning,
    Complete(Seq<char>),
    Invalid,
}

impl View for QRStatus {
    type V = QRStatusView;

    open spec fn view(&self) -> QRStatusView {
        match *self {
            QRStatus::NotScan => QRStatusView::NotScan,
            QRStatus::Scanning => QRStatusView::Scanning,
            QRStatus::Complete(secret) => QRStatusView::Complete(secret@),
            QRStatus::Invalid => QRStatusView::Invalid,
        }
    }
}

/// What the code and the address of a poll say of a login by QR code:
/// nothing where the code is none that is known, or where the login is
/// confirmed and the address holds no secret.
pub open spec fn polled_status(code: i64, url: Seq<char>) -> Option<QRStatusView> {
    if code == 86101 {
        Some(QRStatusView::NotScan)
    } else if code == 86090 {
        Some(QRStatusView::Scanning)
    } else if code == 86038 {
        Some(QRStatusView::Invalid)
    } else if code == 0 {
        match secret_in(url) {
            Some(secret) => Some(QRStatusView::Complete(secret)),
            None => None,
        }
    } else {
        None
    }
}

/// Reads the answer to a poll of a login by QR code.
pub fn qr_status(code: i64, url: &str) -> (status: Option<QRStatus>)
    ensures
        match status {
            Some(s) => polled_status(code, url@) == Some(s@),
            None => polled_status(code, url@) is None,
        },
{
    if code == 86101 {
        Some(QRStatus::NotScan)
    } else if code == 86090 {
        Some(QRStatus::Scanning)
    } else if code == 86038 {
        Some(QRStatus::Invalid)
    } else if code == 0 {
        match session_secret(url) {
            Some(secret) => Some(QRStatus::Complete(secret)),
            None => None,
        }
    } else {
        None
    }
}

/// A path between double quotes.
pub open spec fn quoted(path: Seq<char>) -> Seq<char> {
    seq!['"'] + path + seq!['"']
}

/// The quoted paths with commas between them.
pub open spec fn quoted_list(paths: Seq<Seq<char>>) -> Seq<char>
    decreases paths.len(),
{
    if paths.len() == 0 {
        Seq::<char>::empty()
    } else if paths.len() == 1 {
        quoted(paths[0])
    } else {
        quoted_list(paths.drop_last()) + seq![','] + quoted(paths.last())
    }
}

/// The list of paths as it is sent when their addresses are asked for:
/// the quoted paths between square brackets.
pub open spec fn token_request(paths: Seq<Seq<char>>) -> Seq<char> {
    seq!['['] + quoted_list(paths) + seq![']']
}

/// Writes the list of paths whose addresses are asked for.
pub fn image_token_request(paths: &Vec<String>) -> (text: String)
    ensures
        text@ == token_request(texts(paths@)),
{
    let mut out: Vec<char> = Vec::new();
    out.push('[');
    let mut i: usize = 0;
    while i < paths.len()
        invariant
            i <= paths.len(),
            out@ == seq!['['] + quoted_list(texts(paths@).take(i as int)),
        decreases paths.len() - i,
    {
        let ghost before = out@;
        let ghost head = texts(paths@).take(i as int);
        let ghost next = texts(paths@).take(i + 1);
        proof {
            assert(next.drop_last() == head);
            assert(next.last() == paths@[i as int]@);
        }
        if i > 0 {
            out.push(',');
        }
        out.push('"');
        push_str(&mut out, paths[i].as_str());
        out.push('"');
        proof {
            if i == 0 {
                assert(next[0] == paths@[0]@);
                assert(out@ =~= seq!['['] + quoted(paths@[0]@));
            } else {
                assert(out@ =~= seq!['['] + (quoted_list(head) + seq![','] + quoted(
                    paths@[i as int]@,
                )));
            }
        }
        i += 1;
    }
    proof {
        assert(texts(paths@).take(paths.len() as int) == texts(paths@));
    }
    out.push(']');
    string_of(&out)
}

/// The address of a file with the token that opens it.
pub fn image_url(url: &str, token: &str) -> (address: String)
    ensures
        address@ == url@ + "?token="@ + token@,
{
    let mut out: Vec<char> = Vec::new();
    push_str(&mut out, url);
    push_str(&mut out, "?token=");
    push_str(&mut out, token);
    assert(out@ =~= url@ + "?token="@ + token@);
    string_of(&out)
}

} // verus!
