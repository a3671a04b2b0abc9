use vstd::prelude::*;

verus! {

/// Every supported item identifier starts with these two letters.
pub open spec fn has_video_marker(bid: Seq<char>) -> bool {
    bid.len() >= 2 && bid[0] == 'B' && bid[1] == 'V'
}

pub open spec fn video_url_prefix() -> Seq<char> {
    "https://www.bilibili.com/video/"@
}

/// The public link of a video item.
pub open spec fn video_url(bid: Seq<char>) -> Seq<char> {
    video_url_prefix() + bid + "/"@
}

/// An item identifier that does not carry the video marker.
#[derive(Debug, Clone, PartialEq, Eq)]
pub struct UnsupportedId {
    pub bid: String,
}

/// The link shown for an item in a notification.
#[derive(Debug, Clone)]
pub struct DisplayHistoryURL(String);

impl View for DisplayHistoryURL {
    type V = Seq<char>;

    closed spec fn view(&self) -> Seq<char> {
        self.0@
    }
}

impl DisplayHistoryURL {
    /// The link for `bid`; an identifier without the video marker is refused.
    pub fn from_bid(bid: &str) -> (r: Result<DisplayHistoryURL, UnsupportedId>)
        ensures
            r is Ok <==> has_video_marker(bid@),
            r matches Ok(u) ==> u@ == video_url(bid@),
            r matches Err(e) ==> e.bid@ == bid@,
    {
        let n = bid.unicode_len();
        if n >= 2 && bid.get_char(0) == 'B' && bid.get_char(1) == 'V' {
            let mut s = String::from_str("https://www.bilibili.com/video/");
            s.append(bid);
            s.append("/");
            Ok(DisplayHistoryURL(s))
        } else {
            Err(UnsupportedId { bid: String::from_str(bid) })
        }
    }

    pub fn as_str(&self) -> (r: &str)
        ensures
            r@ == self@,
    {
        self.0.as_str()
    }
}

/// An item as shown to the chat: identifier, title and link.
#[derive(Debug, Clone)]
pub struct DisplayHistory {
    pub bid: String,
    pub title: String,
    pub url: DisplayHistoryURL,
}

impl DisplayHistory {
    /// The display form of an item; refused when its identifier has no link.
    pub fn new(bid: &str, title: &str) -> (r: Result<DisplayHistory, UnsupportedId>)
        ensures
            r is Ok <==> has_video_marker(bid@),
            r matches Ok(d) ==> d.bid@ == bid@ && d.title@ == title@ && d.url@ == video_url(bid@),
            r matches Err(e) ==> e.bid@ == bid@,
    {
        match DisplayHistoryURL::from_bid(bid) {
            Ok(url) => Ok(DisplayHistory { bid: String::from_str(bid), title: String::from_str(title), url }),
            Err(e) => Err(e),
        }
    }
}

/// The chat message for an item: bold title, link, and the time of observation.
pub open spec fn message_text(title: Seq<char>, url: Seq<char>, at: Seq<char>) -> Seq<char> {
    "<b>"@ + title + "</b>\n"@ + url + "\nAt: <i>"@ + at + "</i>"@
}

impl DisplayHistory {
    /// The HTML text sent to the chat for this item, observed at `at`.
    pub fn message(&self, at: &str) -> (r: String)
        ensures
            r@ == message_text(self.title@, self.url@, at@),
    {
        let mut s = String::from_str("<b>");
        s.append(self.title.as_str());
        s.append("</b>\n");
        s.append(self.url.as_str());
        s.append("\nAt: <i>");
        s.append(at);
        s.append("</i>");
        proof {
            assert(s@ =~= message_text(self.title@, self.url@, at@));
        }
        s
    }
}

/// Where the bot posts: the chat and the bot's token.
#[derive(Debug, Clone, Default)]
pub struct Config {
    pub chat_id: String,
    pub token: String,
}

} // verus!
