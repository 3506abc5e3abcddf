//! The account state of the application: keys, access tokens and the
//! authenticated user, and the decisions taken around the service calls.
use vstd::prelude::*;
use crate::circle::{opt_view, UserProfile, user_views, UserProfileView};
use crate::text::{is_blank, str_equal, trims_to_empty};

verus! {

broadcast use vstd::string::to_string_from_display_ensures_for_str;

/// The authenticated account.
pub struct User {
    pub id: u64,
    pub name: String,
    pub url: String,
}

/// The view of a `User`.
pub struct UserView {
    pub id: u64,
    pub name: Seq<char>,
    pub url: Seq<char>,
}

impl View for User {
    type V = UserView;

    open spec fn view(&self) -> UserView {
        UserView { id: self.id, name: self.name@, url: self.url@ }
    }
}

/// The account that stands for "none yet": id 0, empty name and address.
pub open spec fn default_user() -> UserView {
    UserView { id: 0, name: Seq::empty(), url: Seq::empty() }
}

/// Whether an account is known, i.e. differs from the default one.
pub open spec fn spec_existed(u: UserView) -> bool {
    u != default_user()
}

/// The profile address of an account name.
pub open spec fn profile_url(name: Seq<char>) -> Seq<char> {
    "https://twitter.com/"@ + name
}

impl Default for User {
    fn default() -> (r: User)
        ensures
            r@ == default_user(),
    {
        User { id: 0, name: String::new(), url: String::new() }
    }
}

impl User {
    /// Whether this account is known, i.e. differs from the default one.
    pub fn existed(&self) -> (r: bool)
        ensures
            r == spec_existed(self@),
    {
        let r = !(self.id == 0 && self.name.as_str().is_empty() && self.url.as_str().is_empty());
        proof {
            if !r {
                assert(self@.name =~= Seq::<char>::empty());
                assert(self@.url =~= Seq::<char>::empty());
            }
        }
        r
    }

    fn copy(&self) -> (r: User)
        ensures
            r@ == self@,
    {
        User { id: self.id, name: self.name.clone(), url: self.url.clone() }
    }
}

/// The application's keys, the access token and the authenticated account.
pub struct Twitter {
    pub consummer_key: String,
    pub consummer_secret: String,
    pub access_token: String,
    pub access_token_secret: String,
    pub account: User,
}

/// The view of a `Twitter`.
pub struct TwitterView {
    pub consummer_key: Seq<char>,
    pub consummer_secret: Seq<char>,
    pub access_token: Seq<char>,
    pub access_token_secret: Seq<char>,
    pub account: UserView,
}

impl View for Twitter {
    type V = TwitterView;

    open spec fn view(&self) -> TwitterView {
        TwitterView {
            consummer_key: self.consummer_key@,
            consummer_secret: self.consummer_secret@,
            access_token: self.access_token@,
            access_token_secret: self.access_token_secret@,
            account: self.account@,
        }
    }
}

/// The state at start: the given keys, with the token and account of the
/// stored data where there is any, else an empty token and the default account.
pub open spec fn spec_new(key: Seq<char>, secret: Seq<char>, stored: Option<TwitterView>) -> TwitterView {
    match stored {
        Some(t) => TwitterView {
            consummer_key: key,
            consummer_secret: secret,
            access_token: t.access_token,
            access_token_secret: t.access_token_secret,
            account: t.account,
        },
        None => TwitterView {
            consummer_key: key,
            consummer_secret: secret,
            access_token: Seq::empty(),
            access_token_secret: Seq::empty(),
            account: default_user(),
        },
    }
}

/// What is written to the token file: the state with the application's keys blanked.
pub open spec fn spec_store_data(t: TwitterView) -> TwitterView {
    TwitterView { consummer_key: Seq::empty(), consummer_secret: Seq::empty(), ..t }
}

/// The view of an optional stored state.
pub open spec fn stored_view(t: Option<Twitter>) -> Option<TwitterView> {
    match t {
        Some(t) => Some(t@),
        None => None,
    }
}

/// What to do after the stored token was checked with the service.
pub enum AuthNext {
    /// The token is good; the verified account was taken.
    Verified,
    /// No account is known: authorize anew with a PIN.
    PinAuthorization,
}

/// What `authenticate` does with the account the service verified.
pub open spec fn spec_authenticate(t: TwitterView, verified: UserView) -> (TwitterView, AuthNext) {
    if spec_existed(verified) {
        (TwitterView { account: verified, ..t }, AuthNext::Verified)
    } else {
        (t, AuthNext::PinAuthorization)
    }
}

/// The state after a PIN authorization granted `key`/`secret` to the account
/// `user_id` named `screen_name`.
pub open spec fn spec_oauth_process(
    t: TwitterView,
    key: Seq<char>,
    secret: Seq<char>,
    user_id: u64,
    screen_name: Seq<char>,
) -> TwitterView {
    TwitterView {
        access_token: key,
        access_token_secret: secret,
        account: UserView { id: user_id, name: screen_name, url: profile_url(screen_name) },
        ..t
    }
}

/// The account that a check of the token gives: the verified id and name
/// with its profile address, or the default account when the check failed.
pub open spec fn spec_verified_account(verified: Option<(u64, Seq<char>)>) -> UserView {
    match verified {
        Some((id, name)) => UserView { id, name, url: profile_url(name) },
        None => default_user(),
    }
}

fn profile_url_of(name: &str) -> (r: String)
    ensures
        r@ == profile_url(name@),
{
    let mut r = String::new();
    r.append("https://twitter.com/");
    r.append(name);
    r
}

impl Twitter {
    /// The state at start, from the application's keys and the data read
    /// from the token file, if it could be read.
    pub fn new(consummer_key: String, consummer_secret: String, stored: Option<Twitter>) -> (r: Twitter)
        ensures
            r@ == spec_new(consummer_key@, consummer_secret@, stored_view(stored)),
    {
        match stored {
            None => Twitter {
                consummer_key,
                consummer_secret,
                access_token: String::new(),
                access_token_secret: String::new(),
                account: User::default(),
            },
            Some(data) => Twitter {
                consummer_key,
                consummer_secret,
                access_token: data.access_token,
                access_token_secret: data.access_token_secret,
                account: User { id: data.account.id, name: data.account.name, url: data.account.url },
            },
        }
    }

    /// Takes the account the service verified for the stored token, if it is
    /// a known account; otherwise asks for a PIN authorization and changes nothing.
    pub fn authenticate(&mut self, verified: User) -> (r: AuthNext)
        ensures
            (final(self)@, r) == spec_authenticate(old(self)@, verified@),
    {
        if !verified.existed() {
            AuthNext::PinAuthorization
        } else {
            self.account = verified;
            AuthNext::Verified
        }
    }

    /// Records the access token of a PIN authorization and the account it belongs to.
    pub fn oauth_process(&mut self, access_key: String, access_secret: String, user_id: u64, screen_name: String)
        ensures
            final(self)@ == spec_oauth_process(old(self)@, access_key@, access_secret@, user_id, screen_name@),
    {
        self.access_token = access_key;
        self.access_token_secret = access_secret;
        let url = profile_url_of(screen_name.as_str());
        self.account = User { id: user_id, name: screen_name, url };
    }

    /// The data written to the token file: this state with the application's keys blanked.
    pub fn store_data(&self) -> (r: Twitter)
        ensures
            r@ == spec_store_data(self@),
    {
        Twitter {
            consummer_key: String::new(),
            consummer_secret: String::new(),
            access_token: self.access_token.clone(),
            access_token_secret: self.access_token_secret.clone(),
            account: self.account.copy(),
        }
    }
}

/// The account that a check of the token gives, from the verified id and
/// name (`None` when the check failed).
pub fn verified_account(verified: Option<(u64, String)>) -> (r: User)
    ensures
        r@ == spec_verified_account(
            match verified {
                Some((id, name)) => Some((id, name@)),
                None => None,
            },
        ),
{
    match verified {
        Some((id, name)) => {
            let url = profile_url_of(name.as_str());
            User { id, name, url }
        },
        None => User::default(),
    }
}

/// The accounts collected page by page and the cursor of the next page.
pub struct UserPages {
    pub users: Vec<UserProfile>,
    pub next_cursor: i64,
}

/// The accounts of a sequence of pages, in page order.
pub open spec fn concat_pages(pages: Seq<Seq<UserProfileView>>) -> Seq<UserProfileView>
    decreases pages.len(),
{
    if pages.len() == 0 {
        Seq::empty()
    } else {
        concat_pages(pages.drop_last()) + pages.last()
    }
}

impl UserPages {
    /// No account yet; the first page is asked for with cursor -1.
    pub fn new() -> (r: UserPages)
        ensures
            r.users@.len() == 0,
            r.next_cursor == -1,
    {
        UserPages { users: Vec::new(), next_cursor: -1 }
    }

    /// Appends a page of accounts and records the cursor of the next page;
    /// says whether there is one (a zero cursor marks the last page).
    pub fn receive(&mut self, page: Vec<UserProfile>, next_cursor: i64) -> (more: bool)
        ensures
            user_views(final(self).users@) == user_views(old(self).users@) + user_views(page@),
            final(self).next_cursor == next_cursor,
            more == (next_cursor != 0),
    {
        let mut page = page;
        let ghost before = self.users@;
        let ghost added = page@;
        self.users.append(&mut page);
        assert(self.users@ == before + added);
        assert(user_views(self.users@) =~= user_views(before) + user_views(added));
        self.next_cursor = next_cursor;
        next_cursor != 0
    }
}

/// Whether a line typed at the PIN prompt holds a PIN: it is not blank once trimmed.
pub fn is_pin_entered(line: &str) -> (r: bool)
    ensures
        r == !is_blank(line@),
{
    !trims_to_empty(line)
}

/// The drawing path of the pin icon that marks a pinned tweet.
pub const PIN_ICON_PATH: &'static str = "M20.235 14.61c-.375-1.745-2.342-3.506-4.01-4.125l-.544-4.948 1.495-2.242c.157-.236.172-.538.037-.787-.134-.25-.392-.403-.675-.403h-9.14c-.284 0-.542.154-.676.403-.134.25-.12.553.038.788l1.498 2.247-.484 4.943c-1.668.62-3.633 2.38-4.004 4.116-.04.16-.016.404.132.594.103.132.304.29.68.29H8.64l2.904 6.712c.078.184.26.302.458.302s.38-.118.46-.302l2.903-6.713h4.057c.376 0 .576-.156.68-.286.146-.188.172-.434.135-.59z";

/// Whether the first article's icon path is the pin icon (`None`: the
/// article has no icon).
pub fn pin_icon_matches(path: Option<&str>) -> (r: bool)
    ensures
        r == (path matches Some(p) && p@ == PIN_ICON_PATH@),
{
    match path {
        Some(p) => str_equal(p, PIN_ICON_PATH),
        None => false,
    }
}

/// The marker that stands before a tweet's id in its status link.
pub open spec fn status_marker() -> Seq<char> {
    seq!['/', 's', 't', 'a', 't', 'u', 's', '/']
}

/// Whether `/status/` starts at index `i` of `h`.
pub open spec fn marker_at(h: Seq<char>, i: int) -> bool {
    0 <= i && i + 8 <= h.len() && h.subrange(i, i + 8) == status_marker()
}

/// The index of the first `/status/` of `h` at or after `i`.
pub open spec fn find_marker(h: Seq<char>, i: nat) -> Option<nat>
    decreases h.len() - i,
{
    if i + 8 > h.len() {
        None
    } else if marker_at(h, i as int) {
        Some(i)
    } else {
        find_marker(h, i + 1)
    }
}

/// Whether `c` is one of the ASCII digits.
pub open spec fn is_ascii_digit(c: char) -> bool {
    '0' <= c && c <= '9'
}

/// The number of ASCII digits that `s` starts with.
pub open spec fn digit_run(s: Seq<char>) -> nat
    decreases s.len(),
{
    if s.len() == 0 || !is_ascii_digit(s[0]) {
        0
    } else {
        1 + digit_run(s.drop_first())
    }
}

/// The tweet id of a status link: the digits right after its first
/// `/status/`, empty when it has none.
pub open spec fn tweet_id(h: Seq<char>) -> Seq<char> {
    match find_marker(h, 0) {
        Some(i) => {
            let rest = h.skip((i + 8) as int);
            rest.take(digit_run(rest) as int)
        },
        None => Seq::empty(),
    }
}

/// Finds the first `/status/` of a link.
fn find_status_marker(h: &str) -> (r: Option<usize>)
    ensures
        match r {
            Some(i) => find_marker(h@, 0) == Some(i as nat) && i + 8 <= h@.len(),
            None => find_marker(h@, 0) is None,
        },
{
    proof {
        reveal_strlit("/status/");
        assert("/status/"@ =~= status_marker());
    }
    let n = h.unicode_len();
    let mut i: usize = 0;
    while i <= n && n - i >= 8
        invariant
            n == h@.len(),
            i <= n,
            "/status/"@ == status_marker(),
            find_marker(h@, 0) == find_marker(h@, i as nat),
        decreases n - i,
    {
        let window = h.substring_char(i, i + 8);
        if str_equal(window, "/status/") {
            assert(window@ == h@.subrange(i as int, i + 8));
            assert(marker_at(h@, i as int));
            return Some(i);
        }
        assert(window@ == h@.subrange(i as int, i + 8));
        assert(!marker_at(h@, i as int));
        i = i + 1;
    }
    assert(find_marker(h@, i as nat) is None);
    None
}

/// Reads the tweet id out of a status link.
pub fn tweet_id_of(h: &str) -> (r: String)
    ensures
        r@ == tweet_id(h@),
{
    match find_status_marker(h) {
        None => String::new(),
        Some(i) => {
            let n = h.unicode_len();
            let start = i + 8;
            let ghost rest = h@.skip(start as int);
            let mut j: usize = start;
            assert(h@.skip(start as int) =~= rest);
            while j < n && '0' <= h.get_char(j) && h.get_char(j) <= '9'
                invariant
                    n == h@.len(),
                    start <= j <= n,
                    rest == h@.skip(start as int),
                    digit_run(rest) == (j - start) + digit_run(h@.skip(j as int)),
                decreases n - j,
            {
                assert(h@.skip(j as int).drop_first() =~= h@.skip(j + 1));
                j = j + 1;
            }
            assert(digit_run(h@.skip(j as int)) == 0) by {
                if j < n {
                    assert(h@.skip(j as int)[0] == h@[j as int]);
                }
            }
            let id = h.substring_char(start, j);
            assert(id@ =~= rest.take(digit_run(rest) as int));
            id.to_string()
        },
    }
}

/// The pinned tweet's id: empty when the first article shows no pin icon
/// or when its status link is blank, else the id in that link.
pub open spec fn spec_pinned_status(path: Option<Seq<char>>, status_href: Option<Seq<char>>) -> Seq<char> {
    match (path, status_href) {
        (Some(p), Some(h)) => if p == PIN_ICON_PATH@ && !is_blank(h) {
            tweet_id(h)
        } else {
            Seq::empty()
        },
        _ => Seq::empty(),
    }
}

/// Decides the pinned tweet's id from what the page's first article
/// holds: the drawing path of its first icon (`None`: no icon) and the link
/// around its first time stamp, which is read only when the icon is the pin.
pub fn get_pinned_tweet_status(path: Option<&str>, status_href: Option<&str>) -> (r: String)
    requires
        (path matches Some(p) && p@ == PIN_ICON_PATH@) ==> status_href is Some,
    ensures
        r@ == spec_pinned_status(
            match path { Some(p) => Some(p@), None => None },
            match status_href { Some(h) => Some(h@), None => None },
        ),
{
    if !pin_icon_matches(path) {
        return String::new();
    }
    match status_href {
        Some(href) => if trims_to_empty(href) {
            String::new()
        } else {
            tweet_id_of(href)
        },
        None => String::new(),
    }
}

/// The `d` attribute of the first `svg > g > path` in the first `<article>`
/// of an HTML page, as scraper finds it: `None` when the page has no
/// article or that path has no `d`, `Some(None)` when the article has no such path.
pub uninterp spec fn article_icon_path(body: Seq<char>) -> Option<Option<Seq<char>>>;

/// The `href` of the parent element of the first `a > time` in the first
/// `<article>` of an HTML page, as scraper finds it: `None` when there is
/// no article, no such element, no element parent or no `href`.
pub uninterp spec fn article_status_href(body: Seq<char>) -> Option<Seq<char>>;

/// The view of a nested optional string.
pub open spec fn nested_view(r: Option<Option<String>>) -> Option<Option<Seq<char>>> {
    match r {
        Some(inner) => Some(opt_view(inner)),
        None => None,
    }
}

/// Calls scraper's `Html::parse_document`, `Selector::parse`,
/// `ElementRef::select` and `Element::attr` to read the icon path of the
/// first article. Claimed: the result is `article_icon_path` of the page.
#[verifier::external_body]
fn first_article_icon_path(body: &str) -> (r: Option<Option<String>>)
    ensures
        nested_view(r) == article_icon_path(body@),
{
    let document = scraper::Html::parse_document(body);
    let article = scraper::Selector::parse("article").unwrap();
    let icon = scraper::Selector::parse("svg > g > path").unwrap();
    document.select(&article).next().and_then(|a| match a.select(&icon).next() {
        Some(p) => p.value().attr("d").map(|d| Some(d.to_string())),
        None => Some(None),
    })
}

/// Calls scraper's `Html::parse_document`, `Selector::parse`,
/// `ElementRef::select`, `parent` and `Element::attr` to read the status
/// link of the first article. Claimed: the result is `article_status_href`
/// of the page.
#[verifier::external_body]
fn first_article_status_href(body: &str) -> (r: Option<String>)
    ensures
        opt_view(r) == article_status_href(body@),
{
    let document = scraper::Html::parse_document(body);
    let article = scraper::Selector::parse("article").unwrap();
    let time = scraper::Selector::parse("a > time").unwrap();
    document.select(&article).next().and_then(|a| a.select(&time).next()).and_then(|t| t.parent())
        .and_then(|p| p.value().as_element().and_then(|e| e.attr("href"))).map(|h| h.to_string())
}

/// The pinned tweet's id on a profile page; `None` where the page lacks
/// what the lookup needs: no article, an icon path without `d`, or, under
/// the pin icon, no status link.
pub fn pinned_tweet_status_of_page(body: &str) -> (r: Option<String>)
    ensures
        r is None <==> (article_icon_path(body@) is None || (article_icon_path(body@) == Some(
            Some(PIN_ICON_PATH@),
        ) && article_status_href(body@) is None)),
        r matches Some(s) ==> s@ == spec_pinned_status(
            article_icon_path(body@).unwrap(),
            article_status_href(body@),
        ),
{
    match first_article_icon_path(body) {
        None => None,
        Some(found) => {
            let path: Option<&str> = match &found {
                Some(d) => Some(d.as_str()),
                None => None,
            };
            if pin_icon_matches(path) {
                match first_article_status_href(body) {
                    None => None,
                    Some(href) => Some(get_pinned_tweet_status(path, Some(href.as_str()))),
                }
            } else {
                Some(get_pinned_tweet_status(path, None))
            }
        },
    }
}

/// Writing the token file and reading it back at the next start, with the
/// same application keys, restores the state.
pub proof fn lemma_store_then_load(t: TwitterView)
    ensures
        spec_new(t.consummer_key, t.consummer_secret, Some(spec_store_data(t))) == t,
{
}

/// The token file never holds the application's keys.
pub proof fn lemma_store_data_without_keys(t: TwitterView)
    ensures
        spec_store_data(t).consummer_key.len() == 0,
        spec_store_data(t).consummer_secret.len() == 0,
        spec_store_data(spec_store_data(t)) == spec_store_data(t),
{
}

/// Without a token file the account is unknown, so a failed token check
/// leads to a PIN authorization that leaves the state as it was.
pub proof fn lemma_fresh_start_asks_for_pin(key: Seq<char>, secret: Seq<char>)
    ensures
        !spec_existed(spec_new(key, secret, None).account),
        spec_authenticate(spec_new(key, secret, None), spec_verified_account(None))
            == (spec_new(key, secret, None), AuthNext::PinAuthorization),
{
}

/// A token check gives a known account exactly when it succeeded.
pub proof fn lemma_verified_account_known(verified: Option<(u64, Seq<char>)>)
    ensures
        spec_existed(spec_verified_account(verified)) <==> verified is Some,
{
    reveal_strlit("https://twitter.com/");
    if let Some((id, name)) = verified {
        assert(spec_verified_account(verified).url.len() > 0);
    }
}

/// `authenticate` never touches the keys or the token, and when it takes the
/// verified account that account is a known one.
pub proof fn lemma_authenticate_keeps_token(t: TwitterView, verified: UserView)
    ensures
        spec_authenticate(t, verified).0.access_token == t.access_token,
        spec_authenticate(t, verified).0.access_token_secret == t.access_token_secret,
        spec_authenticate(t, verified).0.consummer_key == t.consummer_key,
        spec_authenticate(t, verified).0.consummer_secret == t.consummer_secret,
        spec_authenticate(t, verified).1 == AuthNext::Verified ==> spec_existed(
            spec_authenticate(t, verified).0.account,
        ),
{
}

/// A PIN authorization always leaves a known account, and a second
/// authentication with that account verified changes nothing.
pub proof fn lemma_oauth_gives_known_account(
    t: TwitterView,
    key: Seq<char>,
    secret: Seq<char>,
    user_id: u64,
    screen_name: Seq<char>,
)
    ensures
        spec_existed(spec_oauth_process(t, key, secret, user_id, screen_name).account),
        ({
            let s = spec_oauth_process(t, key, secret, user_id, screen_name);
            spec_authenticate(s, s.account) == (s, AuthNext::Verified)
        }),
{
    reveal_strlit("https://twitter.com/");
    assert(profile_url(screen_name).len() > 0);
}

/// Receiving pages one after another, starting from no account, collects
/// the accounts of all pages in page order.
pub proof fn lemma_pages_accumulate(
    pages: Seq<Seq<UserProfileView>>,
    states: Seq<Seq<UserProfileView>>,
)
    requires
        states.len() == pages.len() + 1,
        states[0].len() == 0,
        forall|i: int| 0 <= i < pages.len() ==> #[trigger] states[i + 1] == states[i] + pages[i],
    ensures
        states.last() == concat_pages(pages),
    decreases pages.len(),
{
    if pages.len() == 0 {
        assert(states[0] =~= Seq::<UserProfileView>::empty());
    } else {
        let n = pages.len() - 1;
        assert forall|i: int| 0 <= i < pages.drop_last().len() implies #[trigger] states.drop_last()[i + 1]
            == states.drop_last()[i] + pages.drop_last()[i] by {
            assert(states[i + 1] == states[i] + pages[i]);
        }
        lemma_pages_accumulate(pages.drop_last(), states.drop_last());
        assert(states[n + 1] == states[n] + pages[n]);
    }
}

/// The id read from a status link is the run of digits that follows its
/// first `/status/`: a link `{prefix}/status/{digits}{rest}` whose prefix
/// holds no `/status/` and whose rest does not start with a digit gives
/// exactly `{digits}`.
pub proof fn lemma_tweet_id_of_link(prefix: Seq<char>, digits: Seq<char>, rest: Seq<char>)
    requires
        forall|i: int| 0 <= i < prefix.len() ==> !marker_at(prefix + status_marker(), i),
        forall|i: int| 0 <= i < digits.len() ==> is_ascii_digit(#[trigger] digits[i]),
        rest.len() == 0 || !is_ascii_digit(rest[0]),
    ensures
        tweet_id(prefix + status_marker() + digits + rest) == digits,
{
    let h = prefix + status_marker() + digits + rest;
    let p = prefix.len();
    assert(h =~= prefix + status_marker() + (digits + rest));
    assert forall|i: nat| i <= p implies #[trigger] find_marker(h, i) == find_marker(h, p) by {
        lemma_find_marker_skips(h, prefix, digits + rest, i);
    }
    assert(h.subrange(p as int, (p + 8) as int) =~= status_marker());
    assert(marker_at(h, p as int));
    let tail = h.skip((p + 8) as int);
    assert(tail =~= digits + rest);
    lemma_digit_run(digits, rest);
    assert(tail.take(digits.len() as int) =~= digits);
}

proof fn lemma_find_marker_skips(h: Seq<char>, prefix: Seq<char>, after: Seq<char>, i: nat)
    requires
        h == prefix + status_marker() + after,
        i <= prefix.len(),
        forall|k: int| 0 <= k < prefix.len() ==> !marker_at(prefix + status_marker(), k),
    ensures
        find_marker(h, i) == find_marker(h, prefix.len()),
    decreases prefix.len() - i,
{
    if i < prefix.len() {
        let ps = prefix + status_marker();
        assert(h.subrange(i as int, (i + 8) as int) =~= ps.subrange(i as int, (i + 8) as int));
        assert(!marker_at(ps, i as int));
        assert(!marker_at(h, i as int));
        lemma_find_marker_skips(h, prefix, after, i + 1);
    }
}

proof fn lemma_digit_run(digits: Seq<char>, rest: Seq<char>)
    requires
        forall|i: int| 0 <= i < digits.len() ==> is_ascii_digit(#[trigger] digits[i]),
        rest.len() == 0 || !is_ascii_digit(rest[0]),
    ensures
        digit_run(digits + rest) == digits.len(),
    decreases digits.len(),
{
    if digits.len() == 0 {
        assert(digits + rest =~= rest);
    } else {
        assert((digits + rest).drop_first() =~= digits.drop_first() + rest);
        assert((digits + rest)[0] == digits[0]);
        lemma_digit_run(digits.drop_first(), rest);
    }
}

} // verus!
