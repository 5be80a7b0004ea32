//! The browser's own pages, and the addresses they answer to.

use vstd::prelude::*;

verus! {

/// One of the browser's own pages.
#[derive(Clone, Copy, Debug, PartialEq, Eq, Structural)]
pub enum SystemPage {
    Settings,
    History,
    Downloads,
    Bookmarks,
    Cookies,
    Cache,
    About,
}

/// An ASCII letter in lower case; any other character as it is.
pub open spec fn ascii_lower(character: char) -> char {
    if 'A' <= character <= 'Z' {
        ((character as u32) + 32) as char
    } else {
        character
    }
}

/// An address as its page is looked up: ASCII letters in lower case, and without one
/// slash at its end.
pub open spec fn plain_address(url: Seq<char>) -> Seq<char> {
    let lower = url.map_values(|character: char| ascii_lower(character));
    if lower.len() > 0 && lower.last() == '/' {
        lower.drop_last()
    } else {
        lower
    }
}

/// The page an address names, if it names one.
pub open spec fn page_at(url: Seq<char>) -> Option<SystemPage> {
    let name = plain_address(url);
    if name == "about:settings"@ || name == "about:preferences"@ {
        Some(SystemPage::Settings)
    } else if name == "about:history"@ {
        Some(SystemPage::History)
    } else if name == "about:downloads"@ {
        Some(SystemPage::Downloads)
    } else if name == "about:bookmarks"@ {
        Some(SystemPage::Bookmarks)
    } else if name == "about:cookies"@ {
        Some(SystemPage::Cookies)
    } else if name == "about:cache"@ {
        Some(SystemPage::Cache)
    } else if name == "about:otlyra"@ {
        Some(SystemPage::About)
    } else {
        None
    }
}

/// An address as its page is looked up.
fn plain(url: &str) -> (name: String)
    ensures
        name@ == plain_address(url@),
{
    let ghost lower = url@.map_values(|character: char| ascii_lower(character));
    let mut out: Vec<char> = Vec::new();
    for character in it: url.chars()
        invariant
            it.seq() == url@,
            lower == url@.map_values(|character: char| ascii_lower(character)),
            out@ == lower.take(it.index()),
    {
        let mut small: char = character;
        if 'A' <= character && character <= 'Z' {
            small = ((character as u8) + 32) as char;
        }
        out.push(small);
        proof {
            assert(lower[it.index()] == ascii_lower(character));
            assert(lower.take(it.index() + 1) == lower.take(it.index()).push(small));
        }
    }
    assert(lower.take(lower.len() as int) == lower);
    if out.len() > 0 && out[out.len() - 1] == '/' {
        let _ = out.pop();
    }
    assert(out@ == plain_address(url@));
    let mut name = String::new();
    for at in 0..out.len()
        invariant
            name@ == out@.take(at as int),
    {
        name.push(out[at]);
        assert(out@.take(at + 1) == out@.take(at as int).push(out@[at as int]));
    }
    assert(out@.take(out@.len() as int) == out@);
    name
}

impl SystemPage {
    /// The address that opens the page.
    pub open spec fn address(self) -> Seq<char> {
        match self {
            SystemPage::Settings => "about:settings"@,
            SystemPage::History => "about:history"@,
            SystemPage::Downloads => "about:downloads"@,
            SystemPage::Bookmarks => "about:bookmarks"@,
            SystemPage::Cookies => "about:cookies"@,
            SystemPage::Cache => "about:cache"@,
            SystemPage::About => "about:otlyra"@,
        }
    }

    /// What a tab showing the page is titled.
    pub open spec fn name(self) -> Seq<char> {
        match self {
            SystemPage::Settings => "Settings"@,
            SystemPage::History => "History"@,
            SystemPage::Downloads => "Downloads"@,
            SystemPage::Bookmarks => "Bookmarks"@,
            SystemPage::Cookies => "Cookies"@,
            SystemPage::Cache => "Cache"@,
            SystemPage::About => "About"@,
        }
    }

    /// Whether there is a surface that draws the page: there is one for every page.
    pub open spec fn is_built(self) -> bool {
        match self {
            SystemPage::Settings
            | SystemPage::History
            | SystemPage::Downloads
            | SystemPage::Bookmarks
            | SystemPage::Cookies
            | SystemPage::Cache
            | SystemPage::About => true,
        }
    }

    /// Whether there is a surface that draws the page.
    pub fn available(self) -> (answer: bool)
        ensures
            answer == self.is_built(),
    {
        match self {
            SystemPage::Settings
            | SystemPage::History
            | SystemPage::Downloads
            | SystemPage::Bookmarks
            | SystemPage::Cookies
            | SystemPage::Cache
            | SystemPage::About => true,
        }
    }

    /// The address that opens the page.
    pub fn url(self) -> (url: String)
        ensures
            url@ == self.address(),
    {
        match self {
            SystemPage::Settings => "about:settings".to_owned(),
            SystemPage::History => "about:history".to_owned(),
            SystemPage::Downloads => "about:downloads".to_owned(),
            SystemPage::Bookmarks => "about:bookmarks".to_owned(),
            SystemPage::Cookies => "about:cookies".to_owned(),
            SystemPage::Cache => "about:cache".to_owned(),
            SystemPage::About => "about:otlyra".to_owned(),
        }
    }

    /// What a tab showing the page is titled.
    pub fn label(self) -> (label: String)
        ensures
            label@ == self.name(),
    {
        match self {
            SystemPage::Settings => "Settings".to_owned(),
            SystemPage::History => "History".to_owned(),
            SystemPage::Downloads => "Downloads".to_owned(),
            SystemPage::Bookmarks => "Bookmarks".to_owned(),
            SystemPage::Cookies => "Cookies".to_owned(),
            SystemPage::Cache => "Cache".to_owned(),
            SystemPage::About => "About".to_owned(),
        }
    }

    /// The page `url` names, if it names one of these.
    ///
    /// Letters in either case and a slash at the end make no difference, and the
    /// preferences answer to both of the names a person might type.
    pub fn from_url(url: &str) -> (page: Option<SystemPage>)
        ensures
            page == page_at(url@),
    {
        let name = plain(url);
        if name == "about:settings".to_owned() || name == "about:preferences".to_owned() {
            Some(SystemPage::Settings)
        } else if name == "about:history".to_owned() {
            Some(SystemPage::History)
        } else if name == "about:downloads".to_owned() {
            Some(SystemPage::Downloads)
        } else if name == "about:bookmarks".to_owned() {
            Some(SystemPage::Bookmarks)
        } else if name == "about:cookies".to_owned() {
            Some(SystemPage::Cookies)
        } else if name == "about:cache".to_owned() {
            Some(SystemPage::Cache)
        } else if name == "about:otlyra".to_owned() {
            Some(SystemPage::About)
        } else {
            None
        }
    }
}

/// A page's own address opens that page.
pub proof fn an_address_opens_its_page(page: SystemPage)
    ensures
        page_at(page.address()) == Some(page),
{
    reveal_strlit("about:settings");
    reveal_strlit("about:preferences");
    reveal_strlit("about:history");
    reveal_strlit("about:downloads");
    reveal_strlit("about:bookmarks");
    reveal_strlit("about:cookies");
    reveal_strlit("about:cache");
    reveal_strlit("about:otlyra");
    assert(plain_address(page.address()) =~= page.address());
    let name = page.address();
    match page {
        SystemPage::Settings => {},
        SystemPage::History => {
            assert(name[6] == 'h' && "about:settings"@[6] == 's' && "about:preferences"@[6] == 'p');
        },
        SystemPage::Downloads => {
            assert(name[6] == 'd' && "about:settings"@[6] == 's' && "about:preferences"@[6] == 'p'
                && "about:history"@[6] == 'h');
        },
        SystemPage::Bookmarks => {
            assert(name[6] == 'b' && "about:settings"@[6] == 's' && "about:preferences"@[6] == 'p'
                && "about:history"@[6] == 'h' && "about:downloads"@[6] == 'd');
        },
        SystemPage::Cookies => {
            assert(name[6] == 'c' && "about:settings"@[6] == 's' && "about:preferences"@[6] == 'p'
                && "about:history"@[6] == 'h' && "about:downloads"@[6] == 'd'
                && "about:bookmarks"@[6] == 'b');
        },
        SystemPage::Cache => {
            assert(name[7] == 'a' && name[6] == 'c' && "about:cookies"@[7] == 'o'
                && "about:settings"@[6] == 's' && "about:preferences"@[6] == 'p'
                && "about:history"@[6] == 'h' && "about:downloads"@[6] == 'd'
                && "about:bookmarks"@[6] == 'b');
        },
        SystemPage::About => {
            assert(name[6] == 'o' && "about:settings"@[6] == 's' && "about:preferences"@[6] == 'p'
                && "about:history"@[6] == 'h' && "about:downloads"@[6] == 'd'
                && "about:bookmarks"@[6] == 'b' && "about:cookies"@[6] == 'c'
                && "about:cache"@[6] == 'c');
        },
    }
}

/// Every page has an address to open it by, and a name for its tab.
pub proof fn an_address_is_not_empty(page: SystemPage)
    ensures
        page.address().len() > 0,
        page.name().len() > 0,
{
    reveal_strlit("about:settings");
    reveal_strlit("about:history");
    reveal_strlit("about:downloads");
    reveal_strlit("about:bookmarks");
    reveal_strlit("about:cookies");
    reveal_strlit("about:cache");
    reveal_strlit("about:otlyra");
    reveal_strlit("Settings");
    reveal_strlit("History");
    reveal_strlit("Downloads");
    reveal_strlit("Bookmarks");
    reveal_strlit("Cookies");
    reveal_strlit("Cache");
    reveal_strlit("About");
}

/// How an address is spelled makes no difference to the page it opens: neither the case of its
/// letters nor a slash at its end.
pub proof fn spelling_makes_no_difference(url: Seq<char>, other: Seq<char>, page: SystemPage)
    requires
        url.len() == other.len(),
        forall|i: int|
            0 <= i < url.len() ==> #[trigger] url[i] == other[i] || 'A' <= url[i] <= 'Z'
                && other[i] as u32 == url[i] as u32 + 32,
    ensures
        page_at(url) == page_at(other),
        page_at(page.address().push('/')) == Some(page),
{
    assert(url.map_values(|character: char| ascii_lower(character)) =~= other.map_values(
        |character: char| ascii_lower(character),
    ));
    an_address_opens_its_page(page);
    reveal_strlit("about:settings");
    reveal_strlit("about:history");
    reveal_strlit("about:downloads");
    reveal_strlit("about:bookmarks");
    reveal_strlit("about:cookies");
    reveal_strlit("about:cache");
    reveal_strlit("about:otlyra");
    assert(plain_address(page.address()) =~= page.address());
    assert(plain_address(page.address().push('/')) =~= page.address());
}

} // verus!
