//! Matching accounts against the event filters, and the output rows built
//! from the matches.
use vstd::prelude::*;
use crate::text::{decimal, join, join_strings, push_decimal, str_equal, views};

verus! {

broadcast use vstd::string::to_string_from_display_ensures_for_str;

/// The account fields that matching and output read.
pub struct UserProfile {
    pub screen_name: String,
    pub name: String,
    pub url: Option<String>,
    pub profile_image_url: String,
}

/// The view of a `UserProfile`.
pub struct UserProfileView {
    pub screen_name: Seq<char>,
    pub name: Seq<char>,
    pub url: Option<Seq<char>>,
    pub profile_image_url: Seq<char>,
}

/// The view of an optional string.
pub open spec fn opt_view(s: Option<String>) -> Option<Seq<char>> {
    match s {
        Some(s) => Some(s@),
        None => None,
    }
}

impl View for UserProfile {
    type V = UserProfileView;

    open spec fn view(&self) -> UserProfileView {
        UserProfileView {
            screen_name: self.screen_name@,
            name: self.name@,
            url: opt_view(self.url),
            profile_image_url: self.profile_image_url@,
        }
    }
}

/// An account whose display name matched a filter.
pub struct CircleInfo {
    pub twitter_id: String,
    pub twitter_name: String,
    pub twitter_url: String,
    pub match_string: String,
    pub space_string: String,
    pub profile_image_url: String,
}

/// The view of a `CircleInfo`.
pub struct CircleInfoView {
    pub twitter_id: Seq<char>,
    pub twitter_name: Seq<char>,
    pub twitter_url: Seq<char>,
    pub match_string: Seq<char>,
    pub space_string: Seq<char>,
    pub profile_image_url: Seq<char>,
}

impl View for CircleInfo {
    type V = CircleInfoView;

    open spec fn view(&self) -> CircleInfoView {
        CircleInfoView {
            twitter_id: self.twitter_id@,
            twitter_name: self.twitter_name@,
            twitter_url: self.twitter_url@,
            match_string: self.match_string@,
            space_string: self.space_string@,
            profile_image_url: self.profile_image_url@,
        }
    }
}

/// The regular expression built from a filter: the filter as group 1,
/// followed by the rest of the name as group 2, i.e. `({filter})(.*)`.
pub open spec fn filter_pattern(filter: Seq<char>) -> Seq<char> {
    seq!['('] + filter + seq![')', '(', '.', '*', ')']
}

/// Whether `regex::Regex::new` accepts a pattern.
pub uninterp spec fn regex_compiles(pattern: Seq<char>) -> bool;

/// Groups 1 and 2 of the first match of a pattern in a text, as
/// `regex::Regex::captures` finds it: `None` when there is no match, and
/// within a match `None` for a group that did not take part.
pub uninterp spec fn regex_groups(pattern: Seq<char>, text: Seq<char>) -> Option<
    (Option<Seq<char>>, Option<Seq<char>>),
>;

#[verifier::external_type_specification]
#[verifier::external_body]
pub struct ExRegex(regex::Regex);

/// A compiled regular expression together with the pattern it was compiled
/// from. Only `compile_pattern` builds one, so the two fields always belong
/// together.
pub struct CompiledPattern {
    regex: regex::Regex,
    source: String,
}

impl CompiledPattern {
    /// The pattern this expression was compiled from.
    pub closed spec fn source(&self) -> Seq<char> {
        self.source@
    }
}

/// Calls `regex::Regex::new`. Claimed: it succeeds exactly when
/// `regex_compiles` holds of the pattern, and the result remembers that pattern.
#[verifier::external_body]
fn compile_pattern(source: &str) -> (r: Option<CompiledPattern>)
    ensures
        r is Some <==> regex_compiles(source@),
        r matches Some(c) ==> c.source() == source@,
{
    regex::Regex::new(source).ok().map(|regex| CompiledPattern { regex, source: source.to_string() })
}

/// The view of the groups a capture wrapper returns.
pub open spec fn groups_view(g: Option<(Option<String>, Option<String>)>) -> Option<
    (Option<Seq<char>>, Option<Seq<char>>),
> {
    match g {
        Some((a, b)) => Some((opt_view(a), opt_view(b))),
        None => None,
    }
}

/// Calls `regex::Regex::captures` and reads groups 1 and 2 with
/// `Captures::get`. Claimed: the result is `regex_groups` of the compiled
/// pattern and the text.
#[verifier::external_body]
fn capture_groups(pattern: &CompiledPattern, text: &str) -> (r: Option<(Option<String>, Option<String>)>)
    ensures
        groups_view(r) == regex_groups(pattern.source(), text@),
{
    pattern.regex.captures(text).map(
        |c| (c.get(1).map(|m| m.as_str().to_string()), c.get(2).map(|m| m.as_str().to_string())),
    )
}

/// Builds the regular expression of a filter.
pub fn filter_regex_source(filter: &str) -> (r: String)
    ensures
        r@ == filter_pattern(filter@),
{
    let mut r = String::new();
    proof {
        reveal_strlit("(");
        reveal_strlit(")(.*)");
    }
    r.append("(");
    r.append(filter);
    r.append(")(.*)");
    r
}

/// The groups of the first filter whose pattern matches `name`, trying the
/// filters in order.
pub open spec fn first_match(filters: Seq<Seq<char>>, name: Seq<char>) -> Option<
    (Option<Seq<char>>, Option<Seq<char>>),
>
    decreases filters.len(),
{
    if filters.len() == 0 {
        None
    } else {
        match regex_groups(filter_pattern(filters[0]), name) {
            Some(g) => Some(g),
            None => first_match(filters.drop_first(), name),
        }
    }
}

/// Whether matching `name` against the filters runs through: every filter
/// tried compiles, and the match found has both groups.
pub open spec fn filters_apply(filters: Seq<Seq<char>>, name: Seq<char>) -> bool
    decreases filters.len(),
{
    if filters.len() == 0 {
        true
    } else {
        &&& regex_compiles(filter_pattern(filters[0]))
        &&& match regex_groups(filter_pattern(filters[0]), name) {
            Some((g1, g2)) => g1 is Some && g2 is Some,
            None => filters_apply(filters.drop_first(), name),
        }
    }
}

/// The circle record of an account, with the two matched parts.
pub open spec fn circle_of(user: UserProfileView, matched: Seq<char>, space: Seq<char>) -> CircleInfoView {
    CircleInfoView {
        twitter_id: user.screen_name,
        twitter_name: user.name,
        twitter_url: match user.url {
            Some(u) => u,
            None => Seq::empty(),
        },
        match_string: matched,
        space_string: space,
        profile_image_url: user.profile_image_url,
    }
}

/// What checking an account gives: the circle record of the first matching
/// filter, or the error text `non`.
pub open spec fn spec_check_user_info(user: UserProfileView, filters: Seq<Seq<char>>) -> Result<
    CircleInfoView,
    Seq<char>,
> {
    match first_match(filters, user.name) {
        Some((Some(m), Some(s))) => Ok(circle_of(user, m, s)),
        _ => Err(seq!['n', 'o', 'n']),
    }
}

/// The view of a check's result.
pub open spec fn check_view(r: Result<CircleInfo, String>) -> Result<CircleInfoView, Seq<char>> {
    match r {
        Ok(c) => Ok(c@),
        Err(e) => Err(e@),
    }
}

/// Tests whether matching `name` against the filters runs through.
pub fn filters_apply_to(filters: &Vec<String>, name: &str) -> (r: bool)
    ensures
        r == filters_apply(views(filters@), name@),
{
    let ghost all = views(filters@);
    let n = filters.len();
    let mut i: usize = 0;
    assert(all.skip(0) =~= all);
    while i < n
        invariant
            n == filters.len(),
            all == views(filters@),
            0 <= i <= n,
            filters_apply(all, name@) == filters_apply(all.skip(i as int), name@),
        decreases n - i,
    {
        assert(all.skip(i as int).drop_first() =~= all.skip(i + 1));
        assert(all.skip(i as int)[0] == filters@[i as int]@);
        let pattern = filter_regex_source(filters[i].as_str());
        match compile_pattern(pattern.as_str()) {
            None => return false,
            Some(c) => match capture_groups(&c, name) {
                None => {},
                Some((g1, g2)) => return g1.is_some() && g2.is_some(),
            },
        }
        i = i + 1;
    }
    true
}

/// Matches an account's display name against the filters in order; the
/// first match gives the circle record, no match gives the error `non`.
pub fn check_user_info(user: &UserProfile, filters: &Vec<String>) -> (r: Result<CircleInfo, String>)
    requires
        filters_apply(views(filters@), user.name@),
    ensures
        check_view(r) == spec_check_user_info(user@, views(filters@)),
        r matches Ok(c) ==> {
            &&& c.twitter_id@ == user.screen_name@
            &&& c.twitter_name@ == user.name@
            &&& c.profile_image_url@ == user.profile_image_url@
            &&& c.twitter_url@ == match user.url {
                Some(u) => u@,
                None => Seq::<char>::empty(),
            }
            &&& first_match(views(filters@), user.name@) == Some(
                (Some(c.match_string@), Some(c.space_string@)),
            )
        },
        r matches Err(e) ==> e@ == seq!['n', 'o', 'n'],
{
    proof {
        lemma_check_record(user@, views(filters@));
    }
    let ghost all = views(filters@);
    let n = filters.len();
    let mut i: usize = 0;
    assert(all.skip(0) =~= all);
    while i < n
        invariant
            n == filters.len(),
            all == views(filters@),
            0 <= i <= n,
            first_match(all, user.name@) == first_match(all.skip(i as int), user.name@),
            filters_apply(all.skip(i as int), user.name@),
        decreases n - i,
    {
        assert(all.skip(i as int).drop_first() =~= all.skip(i + 1));
        assert(all.skip(i as int)[0] == filters@[i as int]@);
        let pattern = filter_regex_source(filters[i].as_str());
        let compiled = compile_pattern(pattern.as_str());
        if let Some(c) = compiled {
            let groups = capture_groups(&c, user.name.as_str());
            if let Some((Some(matched), Some(space))) = groups {
                let twitter_url = match &user.url {
                    Some(url) => url.clone(),
                    None => String::new(),
                };
                return Ok(
                    CircleInfo {
                        twitter_id: user.screen_name.clone(),
                        twitter_name: user.name.clone(),
                        twitter_url,
                        match_string: matched,
                        space_string: space,
                        profile_image_url: user.profile_image_url.clone(),
                    },
                );
            }
        }
        i = i + 1;
    }
    assert(all.skip(n as int) =~= Seq::<Seq<char>>::empty());
    let e = "non".to_string();
    proof {
        reveal_strlit("non");
        broadcast use vstd::string::to_string_from_display_ensures_for_str;
        assert(e@ =~= seq!['n', 'o', 'n']);
        assert(first_match(all, user.name@) is None);
    }
    Err(e)
}


/// The views of a sequence of accounts.
pub open spec fn user_views(users: Seq<UserProfile>) -> Seq<UserProfileView> {
    users.map_values(|u: UserProfile| u@)
}

/// The views of a sequence of circle records.
pub open spec fn circle_views(circles: Seq<CircleInfo>) -> Seq<CircleInfoView> {
    circles.map_values(|c: CircleInfo| c@)
}

/// Whether matching runs through for every account.
pub open spec fn filters_apply_to_all(users: Seq<UserProfileView>, filters: Seq<Seq<char>>) -> bool {
    forall|i: int| 0 <= i < users.len() ==> filters_apply(filters, #[trigger] users[i].name)
}

/// The circle records of the accounts that match a filter, in account order.
pub open spec fn spec_circles(users: Seq<UserProfileView>, filters: Seq<Seq<char>>) -> Seq<CircleInfoView>
    decreases users.len(),
{
    if users.len() == 0 {
        Seq::empty()
    } else {
        let earlier = spec_circles(users.drop_last(), filters);
        match spec_check_user_info(users.last(), filters) {
            Ok(c) => earlier.push(c),
            Err(_) => earlier,
        }
    }
}

/// Checks every account and keeps the circle records of those that match;
/// `None` where matching some account would not run through.
pub fn collect_circles(users: &Vec<UserProfile>, filters: &Vec<String>) -> (r: Option<Vec<CircleInfo>>)
    ensures
        r is None <==> !filters_apply_to_all(user_views(users@), views(filters@)),
        r matches Some(v) ==> circle_views(v@) == spec_circles(user_views(users@), views(filters@)),
{
    let ghost us = user_views(users@);
    let ghost fs = views(filters@);
    let mut out: Vec<CircleInfo> = Vec::new();
    let n = users.len();
    let mut i: usize = 0;
    while i < n
        invariant
            n == users.len(),
            us == user_views(users@),
            fs == views(filters@),
            0 <= i <= n,
            forall|j: int| 0 <= j < i ==> filters_apply(fs, #[trigger] us[j].name),
            circle_views(out@) == spec_circles(us.take(i as int), fs),
        decreases n - i,
    {
        let user = &users[i];
        assert(us[i as int] == user@);
        assert(us.take(i + 1).drop_last() =~= us.take(i as int));
        assert(us.take(i + 1).last() == user@);
        if !filters_apply_to(filters, user.name.as_str()) {
            assert(!filters_apply(fs, us[i as int].name));
            return None;
        }
        let checked = check_user_info(user, filters);
        match checked {
            Ok(c) => {
                out.push(c);
                assert(circle_views(out@) =~= spec_circles(us.take(i as int), fs).push(c@));
            },
            Err(_) => {},
        }
        i = i + 1;
    }
    assert(us.take(n as int) =~= us);
    Some(out)
}

/// The column headers of the output, as the README lists them.
pub open spec fn spec_headers() -> Seq<Seq<char>> {
    seq![
        "Twitter ID"@,
        "Twitter Name"@,
        "アイコン"@,
        "一致イベント名"@,
        "スペース番号"@,
        "画像1"@,
        "画像2"@,
        "画像3"@,
        "画像4"@,
        "Twitter URL"@,
        "Twitter Link"@,
        "固定されたツイート"@,
        "プロフィール画像"@,
        "固定されたツイートの画像"@,
    ]
}

/// The column headers of the output.
pub fn headers() -> (r: Vec<String>)
    ensures
        views(r@) == spec_headers(),
{
    let r = vec![
        "Twitter ID".to_string(),
        "Twitter Name".to_string(),
        "アイコン".to_string(),
        "一致イベント名".to_string(),
        "スペース番号".to_string(),
        "画像1".to_string(),
        "画像2".to_string(),
        "画像3".to_string(),
        "画像4".to_string(),
        "Twitter URL".to_string(),
        "Twitter Link".to_string(),
        "固定されたツイート".to_string(),
        "プロフィール画像".to_string(),
        "固定されたツイートの画像".to_string(),
    ];
    assert(views(r@) =~= spec_headers());
    r
}

/// The header line: the column headers joined with the separator.
pub fn header_line(separator: &str) -> (r: String)
    ensures
        r@ == join(spec_headers(), separator@),
{
    let h = headers();
    join_strings(&h, separator)
}

/// A spreadsheet formula showing the image whose address stands in
/// `column` of spreadsheet row `row`.
pub open spec fn image_cell(column: Seq<char>, row: nat) -> Seq<char> {
    "=IMAGE($"@ + column + decimal(row) + ")"@
}

/// Builds the image formula of a column and row.
pub fn image_formula(column: &str, row: usize) -> (r: String)
    ensures
        r@ == image_cell(column@, row as nat),
{
    let mut r = String::new();
    r.append("=IMAGE($");
    r.append(column);
    push_decimal(&mut r, row);
    r.append(")");
    r
}

/// The cells of the output row of a circle record on spreadsheet row `row`,
/// one per column header. The icon (column C) shows the profile image of
/// column M and image 1 (column F) the pinned tweet's image of column N.
/// The pinned tweet, its image and images 2 to 4 are not collected, so
/// those cells are empty.
pub open spec fn row_fields(c: CircleInfoView, row: nat) -> Seq<Seq<char>> {
    seq![
        c.twitter_id,
        c.twitter_name,
        image_cell("M"@, row),
        c.match_string,
        c.space_string,
        image_cell("N"@, row),
        Seq::empty(),
        Seq::empty(),
        Seq::empty(),
        "https://twitter.com/"@ + c.twitter_id,
        c.twitter_url,
        Seq::empty(),
        c.profile_image_url,
        Seq::empty(),
    ]
}

impl CircleInfo {
    /// The output row of this record on spreadsheet row `row`, cells joined
    /// with the separator.
    pub fn to_string(&self, separator: &str, row: &usize) -> (r: String)
        ensures
            r@ == join(row_fields(self@, *row as nat), separator@),
    {
        let mut link = String::new();
        link.append("https://twitter.com/");
        link.append(self.twitter_id.as_str());
        let cells = vec![
            self.twitter_id.clone(),
            self.twitter_name.clone(),
            image_formula("M", *row),
            self.match_string.clone(),
            self.space_string.clone(),
            image_formula("N", *row),
            String::new(),
            String::new(),
            String::new(),
            link,
            self.twitter_url.clone(),
            String::new(),
            self.profile_image_url.clone(),
            String::new(),
        ];
        assert(views(cells@) =~= row_fields(self@, *row as nat));
        join_strings(&cells, separator)
    }
}

/// The output rows of the records, in order; the first record goes on row 2,
/// below the header line.
pub fn circle_rows(lists: &Vec<CircleInfo>, separator: &str) -> (r: Vec<String>)
    requires
        lists.len() < usize::MAX,
    ensures
        r.len() == lists.len(),
        forall|i: int|
            0 <= i < lists.len() ==> #[trigger] r@[i]@ == join(
                row_fields(lists@[i]@, (i + 2) as nat),
                separator@,
            ),
{
    let mut r: Vec<String> = Vec::new();
    let n = lists.len();
    let mut i: usize = 0;
    while i < n
        invariant
            n == lists.len(),
            n < usize::MAX,
            0 <= i <= n,
            r.len() == i,
            forall|j: int|
                0 <= j < i ==> #[trigger] r@[j]@ == join(row_fields(lists@[j]@, (j + 2) as nat), separator@),
        decreases n - i,
    {
        let row = i + 2;
        let line = lists[i].to_string(separator, &row);
        r.push(line);
        i = i + 1;
    }
    r
}

/// The lines of the output for a target, the same on the screen and in a
/// file: the header line, then the rows of the records numbered from 2.
pub open spec fn spec_output_lines(circles: Seq<CircleInfoView>, separator: Seq<char>) -> Seq<Seq<char>> {
    seq![join(spec_headers(), separator)] + Seq::new(
        circles.len(),
        |i: int| join(row_fields(circles[i], (i + 2) as nat), separator),
    )
}

/// The lines of the output for a target.
pub fn output_lines(lists: &Vec<CircleInfo>, separator: &str) -> (r: Vec<String>)
    requires
        lists.len() < usize::MAX,
    ensures
        views(r@) == spec_output_lines(circle_views(lists@), separator@),
        r.len() == lists.len() + 1,
        r@[0]@ == join(spec_headers(), separator@),
        forall|i: int|
            0 <= i < lists.len() ==> #[trigger] r@[i + 1]@ == join(
                row_fields(lists@[i]@, (i + 2) as nat),
                separator@,
            ),
{
    proof {
        lemma_output_lines(circle_views(lists@), separator@);
    }
    let mut r: Vec<String> = Vec::new();
    r.push(header_line(separator));
    let mut rows = circle_rows(lists, separator);
    r.append(&mut rows);
    assert(views(r@) =~= spec_output_lines(circle_views(lists@), separator@));
    r
}

/// Directory that output files are written to.
pub const DIR: &'static str = "output";

/// The file extension chosen by the separator: `csv` for a comma, `tsx` for
/// a tab, and `txt,` otherwise.
pub open spec fn spec_file_identifier(separator: Seq<char>) -> Seq<char> {
    if separator == ","@ {
        "csv"@
    } else if separator == "\t"@ {
        "tsx"@
    } else {
        "txt,"@
    }
}

/// The file extension chosen by the separator.
pub fn file_identifier(separator: &str) -> (r: &'static str)
    ensures
        r@ == spec_file_identifier(separator@),
{
    if str_equal(separator, ",") {
        "csv"
    } else if str_equal(separator, "\t") {
        "tsx"
    } else {
        "txt,"
    }
}

/// The path of the output file of a target: `output/{title}_{date}.{extension}`.
pub fn output_file_path(title: &str, date_text: &str, separator: &str) -> (r: String)
    ensures
        r@ == DIR@ + "/"@ + title@ + "_"@ + date_text@ + "."@ + spec_file_identifier(separator@),
{
    let mut r = String::new();
    r.append(DIR);
    r.append("/");
    r.append(title);
    r.append("_");
    r.append(date_text);
    r.append(".");
    r.append(file_identifier(separator));
    r
}

/// The title printed for a target: the list name, or `タイムライン` for the
/// empty name, which stands for the accounts followed.
pub open spec fn spec_target_title(target: Seq<char>) -> Seq<char> {
    if target.len() == 0 {
        "タイムライン"@
    } else {
        target
    }
}

/// The title printed for a target.
pub fn target_title(target: &str) -> (r: String)
    ensures
        r@ == spec_target_title(target@),
{
    if target.is_empty() {
        "タイムライン".to_string()
    } else {
        target.to_string()
    }
}

/// A list owned by the account: its name and id.
pub struct ListEntry {
    pub name: String,
    pub id: u64,
}

/// Where the accounts of a target come from.
pub enum TargetSource {
    /// The accounts followed (the empty target name).
    Timeline,
    /// The members of the list with this id.
    List(u64),
    /// No list has the target's name.
    Missing,
}

/// The id of the first list named `target`.
pub open spec fn first_list_id(lists: Seq<ListEntry>, target: Seq<char>) -> Option<u64>
    decreases lists.len(),
{
    if lists.len() == 0 {
        None
    } else if lists[0].name@ == target {
        Some(lists[0].id)
    } else {
        first_list_id(lists.drop_first(), target)
    }
}

/// Where the accounts of a target come from.
pub open spec fn spec_resolve_target(target: Seq<char>, lists: Seq<ListEntry>) -> TargetSource {
    if target.len() == 0 {
        TargetSource::Timeline
    } else {
        match first_list_id(lists, target) {
            Some(id) => TargetSource::List(id),
            None => TargetSource::Missing,
        }
    }
}

/// Finds the first list named `target`.
pub fn find_list_id(lists: &Vec<ListEntry>, target: &str) -> (r: Option<u64>)
    ensures
        r == first_list_id(lists@, target@),
        r is None <==> forall|i: int| 0 <= i < lists.len() ==> lists@[i].name@ != target@,
        r matches Some(id) ==> exists|i: int|
            0 <= i < lists.len() && lists@[i].name@ == target@ && lists@[i].id == id && forall|j: int|
                0 <= j < i ==> lists@[j].name@ != target@,
{
    proof {
        lemma_first_list_id(lists@, target@);
    }
    let n = lists.len();
    let mut i: usize = 0;
    assert(lists@.skip(0) =~= lists@);
    while i < n
        invariant
            n == lists.len(),
            0 <= i <= n,
            first_list_id(lists@, target@) == first_list_id(lists@.skip(i as int), target@),
        decreases n - i,
    {
        assert(lists@.skip(i as int).drop_first() =~= lists@.skip(i + 1));
        assert(lists@.skip(i as int)[0] == lists@[i as int]);
        if lists[i].name == target.to_string() {
            proof {
                lemma_first_list_id(lists@, target@);
            }
            return Some(lists[i].id);
        }
        i = i + 1;
    }
    assert(lists@.skip(n as int) =~= Seq::<ListEntry>::empty());
    None
}

/// Decides where the accounts of a target come from.
pub fn resolve_target(target: &str, lists: &Vec<ListEntry>) -> (r: TargetSource)
    ensures
        r == spec_resolve_target(target@, lists@),
{
    if target.is_empty() {
        TargetSource::Timeline
    } else {
        match find_list_id(lists, target) {
            Some(id) => TargetSource::List(id),
            None => TargetSource::Missing,
        }
    }
}


/// Filters are tried in order: over two lists of filters, the first match
/// is that of the first list when it has one, else that of the second.
pub proof fn lemma_first_match_concat(a: Seq<Seq<char>>, b: Seq<Seq<char>>, name: Seq<char>)
    ensures
        first_match(a + b, name) == match first_match(a, name) {
            Some(g) => Some(g),
            None => first_match(b, name),
        },
    decreases a.len(),
{
    if a.len() == 0 {
        assert(a + b =~= b);
    } else {
        assert((a + b).drop_first() =~= a.drop_first() + b);
        assert((a + b)[0] == a[0]);
        lemma_first_match_concat(a.drop_first(), b, name);
    }
}

/// A single filter gives the first match of its pattern `({filter})(.*)` in the name.
pub proof fn lemma_first_match_single(filter: Seq<char>, name: Seq<char>)
    ensures
        first_match(seq![filter], name) == regex_groups(
            seq!['('] + filter + seq![')', '(', '.', '*', ')'],
            name,
        ),
{
    let one = seq![filter];
    assert(one[0] == filter);
    assert(one.drop_first() =~= Seq::<Seq<char>>::empty());
    assert(first_match(one.drop_first(), name) is None);
}

/// Once an account matches, filters added after the list do not change
/// its record; filters that match nothing can be added in front.
pub proof fn lemma_first_match_wins(
    user: UserProfileView,
    filters: Seq<Seq<char>>,
    more: Seq<Seq<char>>,
)
    ensures
        spec_check_user_info(user, filters) is Ok ==> spec_check_user_info(user, filters + more)
            == spec_check_user_info(user, filters),
        first_match(more, user.name) is None ==> spec_check_user_info(user, more + filters)
            == spec_check_user_info(user, filters),
{
    lemma_first_match_concat(filters, more, user.name);
    lemma_first_match_concat(more, filters, user.name);
}

/// Every output row has one cell per column header, each cell showing one
/// field of the record: id, name, the icon formula on column M (the profile
/// image, under `プロフィール画像`), the matched event name, the rest of the
/// name, the image-1 formula on column N (under `固定されたツイートの画像`),
/// three empty image cells, the profile link, the website address, an empty
/// pinned-tweet cell, the profile image address and an empty pinned-image cell.
pub proof fn lemma_row_matches_headers(c: CircleInfoView, row: nat)
    ensures
        row_fields(c, row).len() == 14,
        spec_headers().len() == 14,
        row_fields(c, row)[0] == c.twitter_id,
        row_fields(c, row)[1] == c.twitter_name,
        row_fields(c, row)[2] == "=IMAGE($"@ + "M"@ + decimal(row) + ")"@,
        spec_headers()[2] == "アイコン"@,
        row_fields(c, row)[3] == c.match_string,
        spec_headers()[3] == "一致イベント名"@,
        row_fields(c, row)[4] == c.space_string,
        spec_headers()[4] == "スペース番号"@,
        row_fields(c, row)[5] == "=IMAGE($"@ + "N"@ + decimal(row) + ")"@,
        row_fields(c, row)[6].len() == 0,
        row_fields(c, row)[7].len() == 0,
        row_fields(c, row)[8].len() == 0,
        row_fields(c, row)[9] == "https://twitter.com/"@ + c.twitter_id,
        row_fields(c, row)[10] == c.twitter_url,
        row_fields(c, row)[11].len() == 0,
        row_fields(c, row)[12] == c.profile_image_url,
        spec_headers()[12] == "プロフィール画像"@,
        row_fields(c, row)[13].len() == 0,
        spec_headers()[13] == "固定されたツイートの画像"@,
{
}

/// Checking an account gives either the error `non`, when no filter gives a
/// match with both parts, or the record of that very account: its id, name
/// and profile image, its website address (empty when it has none), and the
/// two parts of the first match.
pub proof fn lemma_check_record(user: UserProfileView, filters: Seq<Seq<char>>)
    ensures
        match spec_check_user_info(user, filters) {
            Ok(c) => {
                &&& c.twitter_id == user.screen_name
                &&& c.twitter_name == user.name
                &&& c.profile_image_url == user.profile_image_url
                &&& c.twitter_url == match user.url {
                    Some(u) => u,
                    None => Seq::<char>::empty(),
                }
                &&& first_match(filters, user.name) == Some(
                    (Some(c.match_string), Some(c.space_string)),
                )
            },
            Err(e) => {
                &&& e == seq!['n', 'o', 'n']
                &&& !(first_match(filters, user.name) matches Some((Some(_), Some(_))))
            },
        },
{
}

/// The records of two runs of accounts, one after the other, are the
/// records of the first run followed by those of the second: no record is
/// dropped, added or moved, whatever its position.
pub proof fn lemma_circles_concat(a: Seq<UserProfileView>, b: Seq<UserProfileView>, filters: Seq<Seq<char>>)
    ensures
        spec_circles(a + b, filters) == spec_circles(a, filters) + spec_circles(b, filters),
    decreases b.len(),
{
    if b.len() == 0 {
        assert(a + b =~= a);
        assert(spec_circles(a, filters) + spec_circles(b, filters) =~= spec_circles(a, filters));
    } else {
        assert((a + b).drop_last() =~= a + b.drop_last());
        assert((a + b).last() == b.last());
        lemma_circles_concat(a, b.drop_last(), filters);
        let x = spec_circles(a, filters);
        let y = spec_circles(b.drop_last(), filters);
        match spec_check_user_info(b.last(), filters) {
            Ok(c) => {
                assert((x + y).push(c) =~= x + y.push(c));
            },
            Err(_) => {},
        }
    }
}

/// A single account yields its own record when it matches, and nothing otherwise.
pub proof fn lemma_circles_single(user: UserProfileView, filters: Seq<Seq<char>>)
    ensures
        spec_circles(seq![user], filters) == match spec_check_user_info(user, filters) {
            Ok(c) => seq![c],
            Err(_) => Seq::<CircleInfoView>::empty(),
        },
{
    let one = seq![user];
    assert(one.drop_last() =~= Seq::<UserProfileView>::empty());
    assert(one.last() == user);
    assert(spec_circles(one.drop_last(), filters) == Seq::<CircleInfoView>::empty());
    match spec_check_user_info(user, filters) {
        Ok(c) => {
            assert(Seq::<CircleInfoView>::empty().push(c) =~= seq![c]);
        },
        Err(_) => {},
    }
}

/// Every account that matches has its record in the result, at the
/// position given by the matching accounts before it.
pub proof fn lemma_circles_keep_every_match(users: Seq<UserProfileView>, filters: Seq<Seq<char>>, i: int)
    requires
        0 <= i < users.len(),
        spec_check_user_info(users[i], filters) is Ok,
    ensures
        spec_circles(users, filters)[spec_circles(users.take(i), filters).len() as int]
            == spec_check_user_info(users[i], filters)->Ok_0,
        spec_circles(users.take(i), filters).len() < spec_circles(users, filters).len(),
{
    let a = users.take(i);
    let b = seq![users[i]];
    let c = users.skip(i + 1);
    assert(users =~= a + b + c);
    lemma_circles_concat(a + b, c, filters);
    lemma_circles_concat(a, b, filters);
    lemma_circles_single(users[i], filters);
}

/// The output for a target is the header line followed by one line per
/// record, the record at position `i` on spreadsheet row `i + 2`.
pub proof fn lemma_output_lines(circles: Seq<CircleInfoView>, separator: Seq<char>)
    ensures
        spec_output_lines(circles, separator).len() == circles.len() + 1,
        spec_output_lines(circles, separator)[0] == join(spec_headers(), separator),
        forall|i: int|
            0 <= i < circles.len() ==> #[trigger] spec_output_lines(circles, separator)[i + 1]
                == join(row_fields(circles[i], (i + 2) as nat), separator),
{
}

/// A list lookup finds nothing exactly when no list has the name, and
/// otherwise finds the id of the first list with that name.
pub proof fn lemma_first_list_id(lists: Seq<ListEntry>, target: Seq<char>)
    ensures
        first_list_id(lists, target) is None <==> forall|i: int|
            0 <= i < lists.len() ==> lists[i].name@ != target,
        first_list_id(lists, target) matches Some(id) ==> exists|i: int|
            0 <= i < lists.len() && lists[i].name@ == target && lists[i].id == id && forall|j: int|
                0 <= j < i ==> lists[j].name@ != target,
    decreases lists.len(),
{
    if lists.len() > 0 {
        let rest = lists.drop_first();
        lemma_first_list_id(rest, target);
        if lists[0].name@ != target {
            assert forall|i: int| 1 <= i < lists.len() implies lists[i] == rest[i - 1] by {}
            if let Some(id) = first_list_id(rest, target) {
                let k = choose|k: int|
                    0 <= k < rest.len() && rest[k].name@ == target && rest[k].id == id && forall|j: int|
                        0 <= j < k ==> rest[j].name@ != target;
                assert(lists[k + 1] == rest[k]);
                assert forall|j: int| 0 <= j < k + 1 implies lists[j].name@ != target by {
                    if j > 0 {
                        assert(lists[j] == rest[j - 1]);
                    }
                }
            } else {
                assert forall|i: int| 0 <= i < lists.len() implies lists[i].name@ != target by {
                    if i > 0 {
                        assert(lists[i] == rest[i - 1]);
                    }
                }
            }
        }
    }
}

/// A circle record always comes from a matching account: its id and name
/// are the account's, and the account list yields no more records than it
/// has accounts.
pub proof fn lemma_circles_from_accounts(users: Seq<UserProfileView>, filters: Seq<Seq<char>>)
    ensures
        spec_circles(users, filters).len() <= users.len(),
        forall|i: int|
            0 <= i < spec_circles(users, filters).len() ==> exists|j: int|
                0 <= j < users.len() && (#[trigger] spec_circles(users, filters)[i]).twitter_id
                    == users[j].screen_name && spec_circles(users, filters)[i].twitter_name
                    == users[j].name,
    decreases users.len(),
{
    if users.len() > 0 {
        let earlier = users.drop_last();
        lemma_circles_from_accounts(earlier, filters);
        let cs = spec_circles(users, filters);
        assert forall|i: int| 0 <= i < cs.len() implies exists|j: int|
            0 <= j < users.len() && (#[trigger] cs[i]).twitter_id == users[j].screen_name
                && cs[i].twitter_name == users[j].name by {
            if i < spec_circles(earlier, filters).len() {
                let j = choose|j: int|
                    0 <= j < earlier.len() && (#[trigger] spec_circles(earlier, filters)[i]).twitter_id
                        == earlier[j].screen_name && spec_circles(earlier, filters)[i].twitter_name
                        == earlier[j].name;
                assert(users[j] == earlier[j]);
            } else {
                assert(users[users.len() - 1] == users.last());
            }
        }
    }
}

} // verus!
