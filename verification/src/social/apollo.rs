//! Apollo.io company search: the request a search sends and the companies an
//! answer lists.
use vstd::prelude::*;
use crate::fetch::FetchError;
use crate::json::{array_fields, json_array_fields, row_view, rows_view};
use crate::social::{opt_view, CompanyInfo};
use crate::text::{
    append, chars_of, decimal, decimal_of, join, join_strings, or_empty, string_of, views,
};

verus! {

/// An Apollo.io API client: the API key it searches with.
pub struct ApolloClient {
    api_key: String,
}

/// What a company search asks Apollo.io for.
pub struct ApolloQuery {
    pub keywords: String,
    pub per_page: usize,
    pub size_ranges: Option<Vec<String>>,
    pub location: Option<String>,
}

/// The text `s` in upper case, as `str::to_uppercase` maps it.
pub uninterp spec fn upper_cased(s: Seq<char>) -> Seq<char>;

/// Every char of the text is ASCII.
pub open spec fn is_ascii_text(s: Seq<char>) -> bool {
    forall|i: int| 0 <= i < s.len() ==> (#[trigger] s[i] as u32) < 128
}

/// An ASCII char in upper case: `a` to `z` become `A` to `Z`, other chars stay.
pub open spec fn ascii_upper_char(c: char) -> char {
    if 'a' <= c && c <= 'z' {
        ((c as u32) - 32) as char
    } else {
        c
    }
}

/// An ASCII text in upper case.
pub open spec fn ascii_upper(s: Seq<char>) -> Seq<char> {
    s.map_values(|c: char| ascii_upper_char(c))
}

/// `str::to_uppercase`. Claimed: the result is `upper_cased` of the text,
/// and for an ASCII text it is the text with `a` to `z` made `A` to `Z`
/// (the Unicode upper-case mapping of the ASCII range). What it makes of
/// other chars is left unsaid.
#[verifier::external_body]
fn to_upper(s: &str) -> (u: String)
    ensures
        u@ == upper_cased(s@),
        is_ascii_text(s@) ==> u@ == ascii_upper(s@),
{
    s.to_uppercase()
}

/// The employee range of a size letter `A` to `G`.
pub open spec fn size_letter_range(code: Seq<char>) -> Option<Seq<char>> {
    if code == "A"@ {
        Some("1"@)
    } else if code == "B"@ {
        Some("2,10"@)
    } else if code == "C"@ {
        Some("11,50"@)
    } else if code == "D"@ {
        Some("51,200"@)
    } else if code == "E"@ {
        Some("201,500"@)
    } else if code == "F"@ {
        Some("501,1000"@)
    } else if code == "G"@ {
        Some("1001,5000"@)
    } else {
        None
    }
}

/// The employee range a size filter `size` asks for, given the filter in
/// upper case: the range of its letter, or the filter itself.
pub open spec fn size_range_for(upper: Seq<char>, size: Seq<char>) -> Seq<char> {
    match size_letter_range(upper) {
        Some(r) => r,
        None => size,
    }
}

/// The employee ranges a size filter asks for: the range of its letter (in
/// either case), or the filter itself.
pub open spec fn size_ranges_of(size: Option<Seq<char>>) -> Option<Seq<Seq<char>>> {
    match size {
        Some(s) => Some(seq![size_range_for(upper_cased(s), s)]),
        None => None,
    }
}

/// The message for a missing API key.
pub open spec fn missing_key_text() -> Seq<char> {
    "Apollo API key not configured. Add apollo.api_key to config.toml"@
}

/// The fields read from each organization of an answer, in this order.
pub open spec fn org_keys() -> Seq<Seq<char>> {
    seq![
        "name"@,
        "primary_domain"@,
        "industry"@,
        "estimated_num_employees"@,
        "city"@,
        "state"@,
        "country"@,
        "short_description"@,
        "linkedin_url"@,
    ]
}

/// The string field `k` of an organization.
pub open spec fn org_text(org: Seq<(Option<Seq<char>>, Option<u64>)>, k: int) -> Option<Seq<char>> {
    if 0 <= k < org.len() {
        org[k].0
    } else {
        None
    }
}

/// The non-empty texts of `parts`, in order.
pub open spec fn non_empty_parts(parts: Seq<Seq<char>>) -> Seq<Seq<char>>
    decreases parts.len(),
{
    if parts.len() == 0 {
        Seq::empty()
    } else if parts.last().len() > 0 {
        non_empty_parts(parts.drop_last()).push(parts.last())
    } else {
        non_empty_parts(parts.drop_last())
    }
}

/// The headquarters of a city, state and country: the non-empty ones joined
/// with `, `, or none when all are empty.
pub open spec fn hq_of(city: Seq<char>, state: Seq<char>, country: Seq<char>) -> Option<Seq<char>> {
    let parts = non_empty_parts(seq![city, state, country]);
    if parts.len() == 0 {
        None
    } else {
        Some(join(parts, ", "@))
    }
}

/// A company as the fields of one organization give it.
pub open spec fn company_of_org(org: Seq<(Option<Seq<char>>, Option<u64>)>) -> (
    Seq<char>,
    Option<Seq<char>>,
    Option<Seq<char>>,
    Option<Seq<char>>,
    Option<Seq<char>>,
    Option<Seq<char>>,
    Option<Seq<char>>,
) {
    (
        or_empty(org_text(org, 0)),
        org_text(org, 1),
        org_text(org, 2),
        if 3 < org.len() {
            match org[3].1 {
                Some(n) => Some(decimal(n as nat)),
                None => None,
            }
        } else {
            None
        },
        hq_of(or_empty(org_text(org, 4)), or_empty(org_text(org, 5)), or_empty(org_text(org, 6))),
        org_text(org, 7),
        org_text(org, 8),
    )
}

/// The view of a company.
pub open spec fn company_view(c: CompanyInfo) -> (
    Seq<char>,
    Option<Seq<char>>,
    Option<Seq<char>>,
    Option<Seq<char>>,
    Option<Seq<char>>,
    Option<Seq<char>>,
    Option<Seq<char>>,
) {
    (
        c.name@,
        opt_view(c.domain),
        opt_view(c.industry),
        opt_view(c.size),
        opt_view(c.hq),
        opt_view(c.description),
        opt_view(c.linkedin_url),
    )
}

/// The companies of a successful answer: at most `limit` of its
/// organizations, in order.
pub open spec fn companies_of(orgs: Seq<Seq<(Option<Seq<char>>, Option<u64>)>>, limit: int) -> Seq<
    (
        Seq<char>,
        Option<Seq<char>>,
        Option<Seq<char>>,
        Option<Seq<char>>,
        Option<Seq<char>>,
        Option<Seq<char>>,
        Option<Seq<char>>,
    ),
> {
    let kept = if orgs.len() <= limit {
        orgs
    } else {
        orgs.take(limit)
    };
    kept.map_values(|o: Seq<(Option<Seq<char>>, Option<u64>)>| company_of_org(o))
}

/// The headquarters from a city, state and country.
pub fn extract_hq(city: &str, state: &str, country: &str) -> (hq: Option<String>)
    ensures
        opt_view(hq) == hq_of(city@, state@, country@),
{
    let mut parts: Vec<String> = Vec::new();
    let ghost all = seq![city@, state@, country@];
    assert(non_empty_parts(all.take(0)) =~= Seq::<Seq<char>>::empty());
    let c0 = chars_of(city);
    if c0.len() > 0 {
        parts.push(string_of(c0.as_slice()));
    }
    assert(all.take(1).drop_last() =~= all.take(0));
    assert(views(parts@) =~= non_empty_parts(all.take(1)));
    let c1 = chars_of(state);
    if c1.len() > 0 {
        parts.push(string_of(c1.as_slice()));
    }
    assert(all.take(2).drop_last() =~= all.take(1));
    assert(views(parts@) =~= non_empty_parts(all.take(2)));
    let c2 = chars_of(country);
    if c2.len() > 0 {
        parts.push(string_of(c2.as_slice()));
    }
    assert(all.take(3).drop_last() =~= all.take(2));
    assert(all.take(3) =~= all);
    assert(views(parts@) =~= non_empty_parts(all));
    if parts.len() == 0 {
        None
    } else {
        Some(string_of(join_strings(&parts, ", ").as_slice()))
    }
}

fn org_field(org: &Vec<(Option<String>, Option<u64>)>, k: usize) -> (t: Option<String>)
    ensures
        opt_view(t) == org_text(row_view(*org), k as int),
{
    if k < org.len() {
        match &org[k].0 {
            Some(s) => Some(string_of(chars_of(s.as_str()).as_slice())),
            None => None,
        }
    } else {
        None
    }
}

fn text_or_empty(t: Option<String>) -> (s: String)
    ensures
        s@ == or_empty(opt_view(t)),
{
    match t {
        Some(x) => x,
        None => String::new(),
    }
}

/// A company from the fields of one organization.
fn company_from_org(org: &Vec<(Option<String>, Option<u64>)>) -> (c: CompanyInfo)
    ensures
        company_view(c) == company_of_org(row_view(*org)),
{
    let size = if 3 < org.len() {
        match org[3].1 {
            Some(n) => Some(string_of(decimal_of(n).as_slice())),
            None => None,
        }
    } else {
        None
    };
    let city = text_or_empty(org_field(org, 4));
    let state = text_or_empty(org_field(org, 5));
    let country = text_or_empty(org_field(org, 6));
    CompanyInfo {
        name: text_or_empty(org_field(org, 0)),
        domain: org_field(org, 1),
        industry: org_field(org, 2),
        size,
        hq: extract_hq(city.as_str(), state.as_str(), country.as_str()),
        description: org_field(org, 7),
        linkedin_url: org_field(org, 8),
    }
}

fn org_key_list() -> (keys: Vec<String>)
    ensures
        views(keys@) == org_keys(),
{
    let mut keys: Vec<String> = Vec::new();
    keys.push(string_of(chars_of("name").as_slice()));
    keys.push(string_of(chars_of("primary_domain").as_slice()));
    keys.push(string_of(chars_of("industry").as_slice()));
    keys.push(string_of(chars_of("estimated_num_employees").as_slice()));
    keys.push(string_of(chars_of("city").as_slice()));
    keys.push(string_of(chars_of("state").as_slice()));
    keys.push(string_of(chars_of("country").as_slice()));
    keys.push(string_of(chars_of("short_description").as_slice()));
    keys.push(string_of(chars_of("linkedin_url").as_slice()));
    assert(views(keys@) =~= org_keys());
    keys
}

/// The employee ranges a size filter `size` asks for, given the filter in
/// upper case `upper`: the range of its letter `A` to `G`, or the filter
/// itself.
pub fn size_ranges_for(upper: &str, size: &str) -> (r: Vec<String>)
    ensures
        views(r@) == seq![size_range_for(upper@, size@)],
{
    let uc = chars_of(upper);
    let range = if crate::text::eq_str(uc.as_slice(), "A") {
        "1"
    } else if crate::text::eq_str(uc.as_slice(), "B") {
        "2,10"
    } else if crate::text::eq_str(uc.as_slice(), "C") {
        "11,50"
    } else if crate::text::eq_str(uc.as_slice(), "D") {
        "51,200"
    } else if crate::text::eq_str(uc.as_slice(), "E") {
        "201,500"
    } else if crate::text::eq_str(uc.as_slice(), "F") {
        "501,1000"
    } else if crate::text::eq_str(uc.as_slice(), "G") {
        "1001,5000"
    } else {
        size
    };
    let mut v: Vec<String> = Vec::new();
    v.push(string_of(chars_of(range).as_slice()));
    proof {
        reveal_strlit("A");
        reveal_strlit("B");
        reveal_strlit("C");
        reveal_strlit("D");
        reveal_strlit("E");
        reveal_strlit("F");
        reveal_strlit("G");
    }
    assert(views(v@) =~= seq![range@]);
    v
}

/// A size letter `a` to `g` asks for the same employee range as its upper-case
/// letter: the size filter's letters are read in either case.
pub proof fn law_size_letter_case(c: char)
    requires
        'a' <= c <= 'g',
    ensures
        size_range_for(ascii_upper(seq![c]), seq![c]) == size_range_for(
            seq![ascii_upper_char(c)],
            seq![ascii_upper_char(c)],
        ),
        size_letter_range(ascii_upper(seq![c])) is Some,
{
    reveal_strlit("A");
    reveal_strlit("B");
    reveal_strlit("C");
    reveal_strlit("D");
    reveal_strlit("E");
    reveal_strlit("F");
    reveal_strlit("G");
    let u = ascii_upper_char(c);
    assert(ascii_upper(seq![c]) =~= seq![u]);
    assert('A' <= u <= 'G');
    if u == 'A' {
        assert(seq![u] =~= "A"@);
    } else if u == 'B' {
        assert(seq![u] =~= "B"@);
    } else if u == 'C' {
        assert(seq![u] =~= "C"@);
    } else if u == 'D' {
        assert(seq![u] =~= "D"@);
    } else if u == 'E' {
        assert(seq![u] =~= "E"@);
    } else if u == 'F' {
        assert(seq![u] =~= "F"@);
    } else {
        assert(seq![u] =~= "G"@);
    }
}

/// The companies from the organizations `orgs`: at most `limit`, in order.
pub fn companies_from_orgs(orgs: &Vec<Vec<(Option<String>, Option<u64>)>>, limit: usize) -> (r: Vec<
    CompanyInfo,
>)
    ensures
        r@.map_values(|c: CompanyInfo| company_view(c)) == companies_of(rows_view(orgs@), limit as int),
{
    let ghost all = rows_view(orgs@);
    let ghost target = companies_of(all, limit as int);
    let mut r: Vec<CompanyInfo> = Vec::new();
    let mut i: usize = 0;
    while i < orgs.len() && i < limit
        invariant
            all == rows_view(orgs@),
            target == companies_of(all, limit as int),
            i <= orgs@.len(),
            i <= limit,
            r@.len() == i,
            forall|k: int| 0 <= k < i ==> company_view(#[trigger] r@[k]) == company_of_org(all[k]),
        decreases orgs@.len() - i,
    {
        r.push(company_from_org(&orgs[i]));
        i = i + 1;
    }
    assert(r@.map_values(|c: CompanyInfo| company_view(c)) =~= target);
    r
}

impl ApolloClient {
    /// A client for the API key `api_key`; an empty key is an error.
    pub fn new(api_key: &str) -> (r: Result<ApolloClient, FetchError>)
        ensures
            api_key@.len() == 0 ==> (r matches Err(FetchError::HttpError(m)) && m@
                == missing_key_text()),
            api_key@.len() > 0 ==> (r matches Ok(c) && c.key()@ == api_key@),
    {
        let k = chars_of(api_key);
        if k.len() == 0 {
            return Err(
                FetchError::HttpError(
                    string_of(
                        chars_of("Apollo API key not configured. Add apollo.api_key to config.toml").as_slice(),
                    ),
                ),
            );
        }
        Ok(ApolloClient { api_key: string_of(k.as_slice()) })
    }

    /// The API key.
    pub closed spec fn key(&self) -> String {
        self.api_key
    }

    /// The API key the client sends.
    pub fn api_key(&self) -> (k: &String)
        ensures
            k@ == self.key()@,
    {
        &self.api_key
    }

    /// What a search for `keywords` asks for: one page of at most 100 (and at
    /// most `limit`) organizations, with the employee ranges of the size filter
    /// and the location, when given.
    pub fn query(&self, keywords: &str, size: Option<&str>, location: Option<&str>, limit: usize) -> (q:
        ApolloQuery)
        ensures
            q.keywords@ == keywords@,
            q.per_page == if limit < 100 {
                limit
            } else {
                100
            },
            match q.size_ranges {
                Some(v) => size_ranges_of(match size {
                    Some(s) => Some(s@),
                    None => None,
                }) == Some(views(v@)),
                None => size is None,
            },
            opt_view(q.location) == match location {
                Some(l) => Some(l@),
                None => None,
            },
            match size {
                Some(s) => is_ascii_text(s@) ==> (q.size_ranges matches Some(v) && views(v@) == seq![
                    size_range_for(ascii_upper(s@), s@),
                ]),
                None => true,
            },
    {
        let size_ranges = match size {
            Some(s) => {
                let u = to_upper(s);
                Some(size_ranges_for(u.as_str(), s))
            },
            None => None,
        };
        let location = match location {
            Some(l) => Some(string_of(chars_of(l).as_slice())),
            None => None,
        };
        ApolloQuery {
            keywords: string_of(chars_of(keywords).as_slice()),
            per_page: if limit < 100 {
                limit
            } else {
                100
            },
            size_ranges,
            location,
        }
    }

    /// The companies of an answer with status `status` and body `body`: an
    /// error for a status other than 200 or a body that is not JSON; else at
    /// most `limit` of the organizations it lists.
    pub fn companies_from_response(&self, status: u16, body: &str, limit: usize) -> (r: Result<
        Vec<CompanyInfo>,
        FetchError,
    >)
        ensures
            status != 200 ==> (r matches Err(FetchError::HttpError(m)) && m@
                == "Apollo API returned status "@ + decimal(status as nat) + ": "@ + body@),
            status == 200 ==> match json_array_fields(body@, "organizations"@, org_keys()) {
                Err(e) => r matches Err(FetchError::HttpError(m)) && m@
                    == "Failed to parse Apollo response: "@ + e,
                Ok(o) => r matches Ok(cs) && cs@.map_values(|c: CompanyInfo| company_view(c))
                    == companies_of(
                    match o {
                        Some(orgs) => orgs,
                        None => Seq::empty(),
                    },
                    limit as int,
                ),
            },
    {
        if status != 200 {
            let mut v = chars_of("Apollo API returned status ");
            append(&mut v, decimal_of(status as u64).as_slice());
            append(&mut v, chars_of(": ").as_slice());
            append(&mut v, chars_of(body).as_slice());
            return Err(FetchError::HttpError(string_of(v.as_slice())));
        }
        let keys = org_key_list();
        let key = string_of(chars_of("organizations").as_slice());
        match array_fields(body, key.as_str(), &keys) {
            Ok(Some(orgs)) => Ok(companies_from_orgs(&orgs, limit)),
            Ok(None) => {
                let orgs: Vec<Vec<(Option<String>, Option<u64>)>> = Vec::new();
                assert(rows_view(orgs@) =~= Seq::<Seq<(Option<Seq<char>>, Option<u64>)>>::empty());
                Ok(companies_from_orgs(&orgs, limit))
            },
            Err(e) => {
                let mut v = chars_of("Failed to parse Apollo response: ");
                append(&mut v, chars_of(e.as_str()).as_slice());
                Err(FetchError::HttpError(string_of(v.as_slice())))
            },
        }
    }
}

} // verus!
