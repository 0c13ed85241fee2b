use vstd::prelude::*;

verus! {

/// A member as the search endpoint reports it, before it is tied to a channel.
pub struct RawMember {
    pub id: i64,
    pub username: Option<String>,
    pub first_name: Option<String>,
    pub last_name: Option<String>,
    pub phone: Option<String>,
    pub is_premium: bool,
    pub last_online: i64,
}

/// A member record as stored and returned by the engine.
pub struct TelegramMember {
    pub id: i64,
    pub username: Option<String>,
    pub first_name: Option<String>,
    pub last_name: Option<String>,
    pub phone: Option<String>,
    pub is_premium: bool,
    pub last_online: i64,
    /// The channel the record was discovered under.
    pub source_channel: String,
}

/// The record that `raw` becomes when discovered under `channel`.
pub open spec fn normalized(raw: RawMember, channel: String) -> TelegramMember {
    TelegramMember {
        id: raw.id,
        username: raw.username,
        first_name: raw.first_name,
        last_name: raw.last_name,
        phone: raw.phone,
        is_premium: raw.is_premium,
        last_online: raw.last_online,
        source_channel: channel,
    }
}

/// Every record of a batch, normalized under `channel`, in batch order.
pub open spec fn normalize_all(batch: Seq<RawMember>, channel: String) -> Seq<TelegramMember> {
    batch.map_values(|raw: RawMember| normalized(raw, channel))
}

fn copy_text(t: &Option<String>) -> (r: Option<String>)
    ensures
        r == *t,
{
    match t {
        Some(s) => Some(s.clone()),
        None => None,
    }
}

impl RawMember {
    /// Ties this member to the channel it was found in.
    pub fn normalize(&self, channel: &String) -> (r: TelegramMember)
        ensures
            r == normalized(*self, *channel),
    {
        TelegramMember {
            id: self.id,
            username: copy_text(&self.username),
            first_name: copy_text(&self.first_name),
            last_name: copy_text(&self.last_name),
            phone: copy_text(&self.phone),
            is_premium: self.is_premium,
            last_online: self.last_online,
            source_channel: channel.clone(),
        }
    }
}

impl TelegramMember {
    /// A field-for-field copy.
    pub fn duplicate(&self) -> (r: TelegramMember)
        ensures
            r == *self,
    {
        TelegramMember {
            id: self.id,
            username: copy_text(&self.username),
            first_name: copy_text(&self.first_name),
            last_name: copy_text(&self.last_name),
            phone: copy_text(&self.phone),
            is_premium: self.is_premium,
            last_online: self.last_online,
            source_channel: self.source_channel.clone(),
        }
    }
}

} // verus!
