//! What the game's player is set up with.

use vstd::prelude::*;

use crate::config::{BASE_DOMAIN, CACHE_MAX_BYTES, GAME_URL};

verus! {

/// The width that the movie is given until its own is known.
pub const DEFAULT_MOVIE_WIDTH: u32 = 800;

/// The height that the movie is given until its own is known.
pub const DEFAULT_MOVIE_HEIGHT: u32 = 600;

/// A twip is 1/20th of a pixel; negative stage dimensions clamp to zero.
pub fn twips_to_pixels(twips: i32) -> (pixels: u32)
    ensures
        pixels == (if twips < 0 {
            0int
        } else {
            twips / 20
        }),
{
    if twips < 0 {
        0
    } else {
        (twips / 20) as u32
    }
}

/// The size of a movie whose stage is given in twips.
pub fn stage_size(width: i32, height: i32) -> (size: (u32, u32))
    ensures
        size.0 == (if width < 0 {
            0int
        } else {
            width / 20
        }),
        size.1 == (if height < 0 {
            0int
        } else {
            height / 20
        }),
{
    (twips_to_pixels(width), twips_to_pixels(height))
}

/// A whole number of pixels is that many times twenty twips.
pub proof fn pixels_are_twenty_twips(pixels: int)
    requires
        0 <= pixels,
    ensures
        (20 * pixels) / 20 == pixels,
{
}

/// The size of the movie: its own where it is known, else the default.
pub fn movie_size(known: Option<(u32, u32)>) -> (size: (u32, u32))
    ensures
        size == (match known {
            Some(own) => own,
            None => (800u32, 600u32),
        }),
{
    match known {
        Some(own) => own,
        None => (DEFAULT_MOVIE_WIDTH, DEFAULT_MOVIE_HEIGHT),
    }
}

/// What `url::Url::parse` and `Url::host_str` make of a text: `None` where it is
/// no URL, else the host of the URL, where it has one.
pub uninterp spec fn url_host(text: Seq<char>) -> Option<Option<Seq<char>>>;

/// `url::Url::parse`, then `Url::host_str`: the host that a URL names.
#[verifier::external_body]
fn host_of_url(text: &str) -> (host: Option<Option<String>>)
    ensures
        match host {
            None => url_host(text@) is None,
            Some(None) => url_host(text@) == Some(None::<Seq<char>>),
            Some(Some(name)) => url_host(text@) == Some(Some(name@)),
        },
{
    match url::Url::parse(text) {
        Ok(url) => Some(url.host_str().map(str::to_owned)),
        Err(_) => None,
    }
}

/// The domain for which a host is cached.
pub fn domain_or_default(host: Option<String>) -> (domain: String)
    ensures
        domain@ == (match host {
            Some(name) => name@,
            None => BASE_DOMAIN@,
        }),
{
    match host {
        Some(name) => name,
        None => BASE_DOMAIN.to_owned(),
    }
}

/// The host to cache for, or the game's own domain for a URL without a host;
/// `None` where the text is no URL.
pub fn base_domain(movie_url: &str) -> (domain: Option<String>)
    ensures
        match domain {
            Some(name) => url_host(movie_url@) matches Some(host) && name@ == (match host {
                Some(text) => text,
                None => BASE_DOMAIN@,
            }),
            None => url_host(movie_url@) is None,
        },
{
    match host_of_url(movie_url) {
        Some(host) => Some(domain_or_default(host)),
        None => None,
    }
}

/// What a player is built with.
#[derive(Debug)]
pub struct PlayerSetup {
    pub movie_url: &'static str,
    pub base_domain: String,
    pub max_cache_bytes: u64,
    pub movie_size: (u32, u32),
    pub upgrade_to_https: bool,
    pub sockets_allowed: bool,
    pub autoplay: bool,
    pub letterbox: bool,
    pub audio: bool,
}

/// Sets a player up for a domain.
pub fn setup_for(base_domain: String, known_size: Option<(u32, u32)>, audio_device: bool) -> (setup:
    PlayerSetup)
    ensures
        setup.movie_url@ == GAME_URL@,
        setup.base_domain@ == base_domain@,
        setup.max_cache_bytes == CACHE_MAX_BYTES,
        setup.movie_size == (match known_size {
            Some(own) => own,
            None => (800u32, 600u32),
        }),
        setup.upgrade_to_https,
        setup.sockets_allowed,
        setup.autoplay,
        setup.letterbox,
        setup.audio == audio_device,
{
    PlayerSetup {
        movie_url: GAME_URL,
        base_domain,
        max_cache_bytes: CACHE_MAX_BYTES,
        movie_size: movie_size(known_size),
        upgrade_to_https: true,
        sockets_allowed: true,
        autoplay: true,
        letterbox: true,
        audio: audio_device,
    }
}

/// Sets the game's player up: `None` where the game's address is no URL. It
/// runs without sound where there is no audio device.
pub fn build_player(known_size: Option<(u32, u32)>, audio_device: bool) -> (setup: Option<
    PlayerSetup,
>)
    ensures
        match setup {
            Some(s) => {
                &&& s.movie_url@ == GAME_URL@
                &&& url_host(GAME_URL@) matches Some(host) && s.base_domain@ == (match host {
                    Some(text) => text,
                    None => BASE_DOMAIN@,
                })
                &&& s.max_cache_bytes == CACHE_MAX_BYTES
                &&& s.movie_size == (match known_size {
                    Some(own) => own,
                    None => (800u32, 600u32),
                })
                &&& s.upgrade_to_https && s.sockets_allowed && s.autoplay && s.letterbox
                &&& s.audio == audio_device
            },
            None => url_host(GAME_URL@) is None,
        },
{
    match base_domain(GAME_URL) {
        None => None,
        Some(domain) => Some(setup_for(domain, known_size, audio_device)),
    }
}

/// The generic fonts that a movie may ask for.
#[derive(Debug, Clone, Copy, PartialEq, Eq, Structural)]
pub enum DefaultFont {
    Serif,
    Sans,
    Typewriter,
}

/// The fonts that stand for a generic one, in the order in which they are tried.
pub open spec fn font_names(font: DefaultFont) -> Seq<Seq<char>> {
    match font {
        DefaultFont::Serif => seq![
            "Times New Roman"@,
            "Tinos"@,
            "Liberation Serif"@,
            "DejaVu Serif"@,
        ],
        DefaultFont::Sans => seq!["Arial"@, "Arimo"@, "Liberation Sans"@, "DejaVu Sans"@],
        DefaultFont::Typewriter => seq![
            "Courier New"@,
            "Cousine"@,
            "Liberation Mono"@,
            "DejaVu Sans Mono"@,
        ],
    }
}

fn four(a: &'static str, b: &'static str, c: &'static str, d: &'static str) -> (list: Vec<
    &'static str,
>)
    ensures
        list@.map_values(|name: &'static str| name@) == seq![a@, b@, c@, d@],
{
    let mut list: Vec<&'static str> = Vec::new();
    list.push(a);
    list.push(b);
    list.push(c);
    list.push(d);
    assert(list@.map_values(|name: &'static str| name@) =~= seq![a@, b@, c@, d@]);
    list
}

/// The fonts that stand for a generic one, in the order in which they are tried.
pub fn default_fonts(font: DefaultFont) -> (names: Vec<&'static str>)
    ensures
        names@.map_values(|name: &'static str| name@) == font_names(font),
{
    match font {
        DefaultFont::Serif => four("Times New Roman", "Tinos", "Liberation Serif", "DejaVu Serif"),
        DefaultFont::Sans => four("Arial", "Arimo", "Liberation Sans", "DejaVu Sans"),
        DefaultFont::Typewriter => four(
            "Courier New",
            "Cousine",
            "Liberation Mono",
            "DejaVu Sans Mono",
        ),
    }
}

/// A generic font stands for four others: the usual one first, then those that
/// have its measures.
pub proof fn generic_fonts_have_their_own_names(font: DefaultFont)
    ensures
        font_names(font).len() == 4,
        font == DefaultFont::Serif ==> font_names(font)[0] == "Times New Roman"@ && font_names(
            font,
        )[1] == "Tinos"@ && font_names(font)[2] == "Liberation Serif"@ && font_names(font)[3]
            == "DejaVu Serif"@,
        font == DefaultFont::Sans ==> font_names(font)[0] == "Arial"@ && font_names(font)[1]
            == "Arimo"@ && font_names(font)[2] == "Liberation Sans"@ && font_names(font)[3]
            == "DejaVu Sans"@,
        font == DefaultFont::Typewriter ==> font_names(font)[0] == "Courier New"@ && font_names(
            font,
        )[1] == "Cousine"@ && font_names(font)[2] == "Liberation Mono"@ && font_names(font)[3]
            == "DejaVu Sans Mono"@,
{
}

/// Twenty twips are a pixel, what is left of one is dropped, and no movie is
/// smaller than nothing.
pub proof fn twips_are_whole_pixels(twips: i32, pixels: u32)
    requires
        call_ensures(twips_to_pixels, (twips,), pixels),
    ensures
        twips < 0 ==> pixels == 0,
        twips >= 0 ==> 20 * pixels <= twips < 20 * pixels + 20,
{
}

/// A stage is as wide as its width and as high as its height.
pub proof fn stages_keep_their_sides(width: i32, height: i32, size: (u32, u32))
    requires
        call_ensures(stage_size, (width, height), size),
    ensures
        width < 0 ==> size.0 == 0,
        width >= 0 ==> 20 * size.0 <= width < 20 * size.0 + 20,
        height < 0 ==> size.1 == 0,
        height >= 0 ==> 20 * size.1 <= height < 20 * size.1 + 20,
{
}

/// The cache is kept for the host that the movie's address names, or for the
/// game's own where it names none.
pub proof fn caches_are_kept_by_host(url: &str, domain: Option<String>)
    requires
        call_ensures(base_domain, (url,), domain),
    ensures
        domain is None <==> url_host(url@) is None,
        url_host(url@) matches Some(Some(host)) ==> domain->0@ == host,
        url_host(url@) == Some(None::<Seq<char>>) ==> domain->0@ == "play.dragonfable.com"@,
{
}

/// The player is set up for the game's movie, at its own size or at 800 by 600,
/// with a cache of 512 MiB, and with sound where there is a device.
pub proof fn players_are_set_up_for_the_game(
    known: Option<(u32, u32)>,
    audio: bool,
    setup: Option<PlayerSetup>,
)
    requires
        call_ensures(build_player, (known, audio), setup),
    ensures
        setup matches Some(s) ==> {
            &&& s.movie_url@ == "https://play.dragonfable.com/game/DFLoader.swf"@
            &&& s.max_cache_bytes == 512 * 1024 * 1024
            &&& known is Some ==> s.movie_size == known->0
            &&& known is None ==> s.movie_size.0 == 800 && s.movie_size.1 == 600
            &&& s.audio == audio
            &&& s.upgrade_to_https && s.sockets_allowed && s.autoplay && s.letterbox
        },
{
}

/// A player is set up for the domain that it is given and with nothing but what
/// the game needs.
pub proof fn setups_keep_what_they_are_given(
    domain: String,
    known: Option<(u32, u32)>,
    audio: bool,
    setup: PlayerSetup,
    size: (u32, u32),
)
    requires
        call_ensures(setup_for, (domain, known, audio), setup),
        call_ensures(movie_size, (known,), size),
    ensures
        setup.base_domain@ == domain@,
        setup.movie_url@ == "https://play.dragonfable.com/game/DFLoader.swf"@,
        setup.max_cache_bytes == 512 * 1024 * 1024,
        setup.movie_size == size,
        known is Some ==> size == known->0,
        known is None ==> size.0 == 800 && size.1 == 600,
        setup.audio == audio,
        setup.upgrade_to_https && setup.sockets_allowed && setup.autoplay && setup.letterbox,
{
}

/// A host that is known is the domain, and the game's own stands in for one that
/// is not.
pub proof fn hosts_are_their_domains(host: Option<String>, domain: String)
    requires
        call_ensures(domain_or_default, (host,), domain),
    ensures
        host is Some ==> domain@ == host->0@,
        host is None ==> domain@ == "play.dragonfable.com"@,
{
}

} // verus!
