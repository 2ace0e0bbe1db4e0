//! The settings form: the state behind the interactive configuration editor
//! and the update rule applied for every edit message.  Numeric input that
//! does not parse, or does not fit its field, is rejected and the prior
//! value kept.

use vstd::prelude::*;

use crate::numeric::{spec_parse_u64, spec_parse_usize, parse_u64, parse_usize};

verus! {

/// Mathematical image of the editable settings.
#[verifier::ext_equal]
pub ghost struct SettingsView {
    pub port: usize,
    pub host: Seq<char>,
    pub polling_rate: u64,
    pub dynamic_timeout: bool,
    pub default_timeout: u64,
    pub reading_speed: u64,
    pub min_timeout: u64,
    pub max_timeout: u64,
    pub skipped_apps: Seq<Seq<char>>,
}

/// The editable settings, one field per form control.  Units are as in the
/// configuration snapshot: seconds for the timeouts, words per minute for
/// the reading speed, milliseconds for the polling rate.
pub struct XSNotifySettings {
    pub port: usize,
    pub host: String,
    pub polling_rate: u64,
    pub dynamic_timeout: bool,
    pub default_timeout: u64,
    pub reading_speed: u64,
    pub min_timeout: u64,
    pub max_timeout: u64,
    pub skipped_apps: Vec<String>,
}

impl View for XSNotifySettings {
    type V = SettingsView;

    open spec fn view(&self) -> SettingsView {
        SettingsView {
            port: self.port,
            host: self.host@,
            polling_rate: self.polling_rate,
            dynamic_timeout: self.dynamic_timeout,
            default_timeout: self.default_timeout,
            reading_speed: self.reading_speed,
            min_timeout: self.min_timeout,
            max_timeout: self.max_timeout,
            skipped_apps: self.skipped_apps@.map_values(|s: String| s@),
        }
    }
}

/// The default settings, shown before any persisted configuration is read.
pub open spec fn spec_default_settings() -> SettingsView {
    SettingsView {
        port: 42069,
        host: "localhost"@,
        polling_rate: 250,
        dynamic_timeout: true,
        default_timeout: 5,
        reading_speed: 238,
        min_timeout: 2,
        max_timeout: 120,
        skipped_apps: Seq::empty(),
    }
}

impl Default for XSNotifySettings {
    fn default() -> (s: Self)
        ensures
            s@ == spec_default_settings(),
    {
        let s = XSNotifySettings {
            port: 42069,
            host: "localhost".to_owned(),
            polling_rate: 250,
            dynamic_timeout: true,
            default_timeout: 5,
            reading_speed: 238,
            min_timeout: 2,
            max_timeout: 120,
            skipped_apps: Vec::new(),
        };
        proof {
            assert(s@ =~= spec_default_settings());
        }
        s
    }
}

/// One edit message from the form.  The numeric controls hand their raw text
/// over; the update rule decides whether it is taken.
#[derive(Debug, Clone)]
pub enum Message {
    SetPort(String),
    SetHost(String),
    SetPollingRate(String),
    SetDynamicTimeout(bool),
    SetDefaultTimeout(String),
    SetReadingSpeed(String),
    SetMinTimeout(String),
    SetMaxTimeout(String),
    SetCurrentApp(String),
    AddSkippedApp(),
    RemoveSkippedApp(String),
}

/// Mathematical image of the whole form.
#[verifier::ext_equal]
pub ghost struct XSNotifyView {
    pub settings: SettingsView,
    pub current_skipped_app: Seq<char>,
}

/// The form: the settings being edited, and the text typed so far into the
/// skipped-application entry field.
pub struct XSNotify {
    pub settings: XSNotifySettings,
    pub current_skipped_app: String,
}

impl View for XSNotify {
    type V = XSNotifyView;

    open spec fn view(&self) -> XSNotifyView {
        XSNotifyView { settings: self.settings@, current_skipped_app: self.current_skipped_app@ }
    }
}

impl Default for XSNotify {
    fn default() -> (x: Self)
        ensures
            x@.settings == spec_default_settings(),
            x@.current_skipped_app == Seq::<char>::empty(),
    {
        XSNotify { settings: XSNotifySettings::default(), current_skipped_app: String::new() }
    }
}

/// The skip list with every entry equal to `value` removed.
pub open spec fn remove_all(apps: Seq<Seq<char>>, value: Seq<char>) -> Seq<Seq<char>> {
    apps.filter(|a: Seq<char>| a != value)
}

/// Remove every entry equal to `value` from `apps`, keeping the order of the
/// remaining entries.
fn remove_matching(apps: &mut Vec<String>, value: &String)
    ensures
        final(apps)@.map_values(|s: String| s@) == remove_all(
            old(apps)@.map_values(|s: String| s@),
            value@,
        ),
{
    let ghost pred = |a: Seq<char>| a != value@;
    let mut kept: Vec<String> = Vec::new();
    let mut i: usize = 0;
    while i < apps.len()
        invariant
            0 <= i <= apps@.len(),
            kept@.map_values(|s: String| s@) == apps@.map_values(|s: String| s@).take(
                i as int,
            ).filter(pred),
            pred == (|a: Seq<char>| a != value@),
        decreases apps@.len() - i,
    {
        let ghost model = apps@.map_values(|s: String| s@);
        proof {
            assert(model.take(i + 1).drop_last() =~= model.take(i as int));
            assert(model.take(i + 1).last() == model[i as int]);
            reveal(Seq::filter);
        }
        if apps[i] == *value {
            proof {
                assert(model.take(i + 1).filter(pred) == model.take(i as int).filter(pred));
            }
        } else {
            kept.push(apps[i].clone());
            proof {
                assert(kept@.map_values(|s: String| s@) =~= model.take(i + 1).filter(pred));
            }
        }
        i += 1;
    }
    proof {
        assert(apps@.map_values(|s: String| s@).take(apps@.len() as int) =~= apps@.map_values(
            |s: String| s@,
        ));
    }
    *apps = kept;
}

impl XSNotify {
    /// Apply one edit message.  Text for a numeric field is taken only when
    /// it parses as an unsigned decimal that fits the field; otherwise the
    /// field keeps its prior value.  Submitting the entry field appends its
    /// text to the skip list and clears it; removing an application drops
    /// every matching entry and is a no-op when none matches.
    pub fn update(&mut self, message: Message)
        ensures
            match message {
                Message::SetPort(value) => match spec_parse_usize(value@) {
                    Some(v) => final(self)@ == (XSNotifyView {
                        settings: (SettingsView { port: v, ..old(self)@.settings }),
                        ..old(self)@
                    }),
                    None => final(self)@ == old(self)@,
                },
                Message::SetHost(value) => final(self)@ == (XSNotifyView {
                    settings: (SettingsView { host: value@, ..old(self)@.settings }),
                    ..old(self)@
                }),
                Message::SetPollingRate(value) => match spec_parse_u64(value@) {
                    Some(v) => final(self)@ == (XSNotifyView {
                        settings: (SettingsView { polling_rate: v, ..old(self)@.settings }),
                        ..old(self)@
                    }),
                    None => final(self)@ == old(self)@,
                },
                Message::SetDynamicTimeout(value) => final(self)@ == (XSNotifyView {
                    settings: (SettingsView { dynamic_timeout: value, ..old(self)@.settings }),
                    ..old(self)@
                }),
                Message::SetDefaultTimeout(value) => match spec_parse_u64(value@) {
                    Some(v) => final(self)@ == (XSNotifyView {
                        settings: (SettingsView { default_timeout: v, ..old(self)@.settings }),
                        ..old(self)@
                    }),
                    None => final(self)@ == old(self)@,
                },
                Message::SetReadingSpeed(value) => match spec_parse_u64(value@) {
                    Some(v) => final(self)@ == (XSNotifyView {
                        settings: (SettingsView { reading_speed: v, ..old(self)@.settings }),
                        ..old(self)@
                    }),
                    None => final(self)@ == old(self)@,
                },
                Message::SetMinTimeout(value) => match spec_parse_u64(value@) {
                    Some(v) => final(self)@ == (XSNotifyView {
                        settings: (SettingsView { min_timeout: v, ..old(self)@.settings }),
                        ..old(self)@
                    }),
                    None => final(self)@ == old(self)@,
                },
                Message::SetMaxTimeout(value) => match spec_parse_u64(value@) {
                    Some(v) => final(self)@ == (XSNotifyView {
                        settings: (SettingsView { max_timeout: v, ..old(self)@.settings }),
                        ..old(self)@
                    }),
                    None => final(self)@ == old(self)@,
                },
                Message::SetCurrentApp(value) => final(self)@ == (XSNotifyView {
                    current_skipped_app: value@,
                    ..old(self)@
                }),
                Message::AddSkippedApp() => final(self)@ == (XSNotifyView {
                    settings: (SettingsView {
                        skipped_apps: old(self)@.settings.skipped_apps.push(
                            old(self)@.current_skipped_app,
                        ),
                        ..old(self)@.settings
                    }),
                    current_skipped_app: Seq::empty(),
                }),
                Message::RemoveSkippedApp(value) => final(self)@ == (XSNotifyView {
                    settings: (SettingsView {
                        skipped_apps: remove_all(old(self)@.settings.skipped_apps, value@),
                        ..old(self)@.settings
                    }),
                    ..old(self)@
                }),
            },
    {
        match message {
            Message::SetPort(value) => {
                match parse_usize(value.as_str()) {
                    Some(v) => {
                        self.settings.port = v;
                    },
                    None => {},
                }
            },
            Message::SetHost(value) => {
                self.settings.host = value;
            },
            Message::SetPollingRate(value) => {
                match parse_u64(value.as_str()) {
                    Some(v) => {
                        self.settings.polling_rate = v;
                    },
                    None => {},
                }
            },
            Message::SetDynamicTimeout(value) => {
                self.settings.dynamic_timeout = value;
            },
            Message::SetDefaultTimeout(value) => {
                match parse_u64(value.as_str()) {
                    Some(v) => {
                        self.settings.default_timeout = v;
                    },
                    None => {},
                }
            },
            Message::SetReadingSpeed(value) => {
                match parse_u64(value.as_str()) {
                    Some(v) => {
                        self.settings.reading_speed = v;
                    },
                    None => {},
                }
            },
            Message::SetMinTimeout(value) => {
                match parse_u64(value.as_str()) {
                    Some(v) => {
                        self.settings.min_timeout = v;
                    },
                    None => {},
                }
            },
            Message::SetMaxTimeout(value) => {
                match parse_u64(value.as_str()) {
                    Some(v) => {
                        self.settings.max_timeout = v;
                    },
                    None => {},
                }
            },
            Message::SetCurrentApp(value) => {
                self.current_skipped_app = value;
            },
            Message::AddSkippedApp() => {
                self.settings.skipped_apps.push(self.current_skipped_app.clone());
                self.current_skipped_app = String::new();
                proof {
                    assert(self@.settings.skipped_apps =~= old(self)@.settings.skipped_apps.push(
                        old(self)@.current_skipped_app,
                    ));
                    assert(self@ =~= (XSNotifyView {
                        settings: (SettingsView {
                            skipped_apps: old(self)@.settings.skipped_apps.push(
                                old(self)@.current_skipped_app,
                            ),
                            ..old(self)@.settings
                        }),
                        current_skipped_app: Seq::empty(),
                    }));
                }
            },
            Message::RemoveSkippedApp(value) => {
                remove_matching(&mut self.settings.skipped_apps, &value);
                proof {
                    assert(self@ =~= (XSNotifyView {
                        settings: (SettingsView {
                            skipped_apps: remove_all(old(self)@.settings.skipped_apps, value@),
                            ..old(self)@.settings
                        }),
                        ..old(self)@
                    }));
                }
            },
        }
    }
}

} // verus!
