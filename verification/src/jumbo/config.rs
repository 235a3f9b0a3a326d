use vstd::prelude::*;

use crate::numbers::{decimal_digits, decimal_string};

verus! {

/// The configuration of a Jumbo API client: the base url and the user agent.
pub struct Config {
    url: String,
    user_agent: String,
}

/// The base url of the Jumbo API for `api_version`.
pub open spec fn spec_api_url(api_version: u16) -> Seq<char> {
    "https://mobileapi.jumbo.com/v"@ + decimal_digits(api_version as nat)
}

pub open spec fn spec_user_agent() -> Seq<char> {
    "Jumbo/9.4.1 (unknown Android_SDK_built_for_x86_64; Android 12)"@
}

impl Config {
    pub closed spec fn spec_url(&self) -> Seq<char> {
        self.url@
    }

    pub closed spec fn spec_user_agent(&self) -> Seq<char> {
        self.user_agent@
    }

    /// A [Config] for the given API version; the default is `api_version = 17`.
    pub fn new(api_version: u16) -> (res: Config)
        ensures
            res.spec_url() == spec_api_url(api_version),
            res.spec_user_agent() == spec_user_agent(),
    {
        let mut url = String::from_str("https://mobileapi.jumbo.com/v");
        let version = decimal_string(api_version as u64);
        url.append(version.as_str());
        Config {
            url,
            user_agent: String::from_str("Jumbo/9.4.1 (unknown Android_SDK_built_for_x86_64; Android 12)"),
        }
    }

    /// Returns the API url.
    pub fn url(&self) -> (res: &str)
        ensures
            res@ == self.spec_url(),
    {
        self.url.as_str()
    }

    /// Returns the user agent sent with every request.
    pub fn user_agent(&self) -> (res: &str)
        ensures
            res@ == self.spec_user_agent(),
    {
        self.user_agent.as_str()
    }

    /// Returns the full url for the API and the provided suffix.
    pub fn get_full_url(&self, suffix: &str) -> (res: String)
        ensures
            res@ == self.spec_url() + suffix@,
    {
        let mut res = self.url.clone();
        res.append(suffix);
        res
    }
}

impl Default for Config {
    fn default() -> (res: Config)
        ensures
            res.spec_url() == spec_api_url(17),
            res.spec_user_agent() == spec_user_agent(),
    {
        Config::new(17)
    }
}

/// The credentials of a logged-in Jumbo user.
#[derive(Clone, Debug, PartialEq, Eq)]
pub struct Credentials {
    pub auth_token: String,
}

impl Credentials {
    pub fn new(auth_token: String) -> (res: Credentials)
        ensures
            res.auth_token == auth_token,
    {
        Credentials { auth_token }
    }
}

/// The key/value pairs that a query holds: each key with the value of its last present entry, in the
/// order in which keys first got a present value.
pub open spec fn query_pairs(entries: Seq<(Seq<char>, Option<Seq<char>>)>) -> Seq<(Seq<char>, Seq<char>)>
    decreases entries.len(),
{
    if entries.len() == 0 {
        seq![]
    } else {
        let rest = query_pairs(entries.drop_last());
        let (k, v) = entries.last();
        match v {
            Some(val) => match index_of_key(rest, k) {
                Some(i) => rest.update(i as int, (k, val)),
                None => rest.push((k, val)),
            },
            None => rest,
        }
    }
}

/// The position of key `k` in `pairs`.
pub open spec fn index_of_key(pairs: Seq<(Seq<char>, Seq<char>)>, k: Seq<char>) -> Option<nat>
    decreases pairs.len(),
{
    if pairs.len() == 0 {
        None
    } else if pairs.last().0 == k {
        Some((pairs.len() - 1) as nat)
    } else {
        index_of_key(pairs.drop_last(), k)
    }
}

proof fn lemma_index_of_key(pairs: Seq<(Seq<char>, Seq<char>)>, k: Seq<char>)
    ensures
        index_of_key(pairs, k) matches Some(i) ==> i < pairs.len() && pairs[i as int].0 == k,
        index_of_key(pairs, k) is None ==> forall|j: int| 0 <= j < pairs.len() ==> pairs[j].0 != k,
    decreases pairs.len(),
{
    if pairs.len() > 0 {
        lemma_index_of_key(pairs.drop_last(), k);
        if pairs.last().0 != k {
            assert forall|j: int| 0 <= j < pairs.len() - 1 implies pairs[j] == pairs.drop_last()[j] by {}
        }
    }
}

pub open spec fn pair_view(p: (&str, &str)) -> (Seq<char>, Seq<char>) {
    (p.0@, p.1@)
}

pub open spec fn entry_view(e: (&str, Option<&str>)) -> (Seq<char>, Option<Seq<char>>) {
    (e.0@, match e.1 { Some(v) => Some(v@), None => None })
}

/// Where `k` stands among the keys of `pairs`.
fn find_key(pairs: &Vec<(&str, &str)>, k: &str) -> (res: Option<usize>)
    ensures
        res matches Some(i) ==> index_of_key(pairs@.map_values(|p: (&str, &str)| pair_view(p)), k@) == Some(i as nat),
        res is None ==> index_of_key(pairs@.map_values(|p: (&str, &str)| pair_view(p)), k@) is None,
{
    let ghost pv = pairs@.map_values(|p: (&str, &str)| pair_view(p));
    let kc = crate::text::chars_of(k);
    let mut n = pairs.len();
    proof {
        assert(pv.take(n as int) =~= pv);
    }
    while n > 0
        invariant
            n <= pairs.len(),
            pv == pairs@.map_values(|p: (&str, &str)| pair_view(p)),
            kc@ == k@,
            index_of_key(pv, k@) == index_of_key(pv.take(n as int), k@),
        decreases n,
    {
        let key = crate::text::chars_of(pairs[n - 1].0);
        proof {
            assert(pv.take(n as int).last() == pair_view(pairs@[n - 1]));
            assert(pv.take(n as int).drop_last() =~= pv.take(n - 1));
        }
        if crate::text::chars_eq(&key, &kc) {
            return Some(n - 1);
        }
        n = n - 1;
    }
    None
}

/// Build a query from the given key/value entries, leaving out those without a value.
/// A later entry for a key replaces the value of an earlier one.
pub fn build_map<'key, 'value>(array: Vec<(&'key str, Option<&'value str>)>) -> (res: Vec<(&'key str, &'value str)>)
    ensures
        res@.map_values(|p: (&str, &str)| pair_view(p)) == query_pairs(
            array@.map_values(|e: (&str, Option<&str>)| entry_view(e)),
        ),
{
    let ghost av = array@.map_values(|e: (&str, Option<&str>)| entry_view(e));
    let mut map: Vec<(&'key str, &'value str)> = Vec::new();
    let mut i: usize = 0;
    while i < array.len()
        invariant
            i <= array.len(),
            av == array@.map_values(|e: (&str, Option<&str>)| entry_view(e)),
            map@.map_values(|p: (&str, &str)| pair_view(p)) == query_pairs(av.take(i as int)),
        decreases array.len() - i,
    {
        let (key, value) = array[i];
        proof {
            assert(av.take(i + 1).drop_last() =~= av.take(i as int));
            assert(av.take(i + 1).last() == entry_view(array@[i as int]));
        }
        let ghost old_map = map@;
        if let Some(value) = value {
            match find_key(&map, key) {
                Some(j) => {
                    proof {
                        lemma_index_of_key(old_map.map_values(|p: (&str, &str)| pair_view(p)), key@);
                    }
                    map.set(j, (key, value));
                    proof {
                        assert(map@.map_values(|p: (&str, &str)| pair_view(p)) =~= old_map.map_values(
                            |p: (&str, &str)| pair_view(p),
                        ).update(j as int, (key@, value@)));
                    }
                },
                None => {
                    map.push((key, value));
                    proof {
                        assert(map@.map_values(|p: (&str, &str)| pair_view(p)) =~= old_map.map_values(
                            |p: (&str, &str)| pair_view(p),
                        ).push((key@, value@)));
                    }
                },
            }
        }
        i = i + 1;
    }
    proof {
        assert(av.take(array.len() as int) =~= av);
    }
    map
}

} // verus!
