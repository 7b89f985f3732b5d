//! The parameters of a call, as plain values, and the requests that they
//! spell.

use vstd::prelude::*;
use crate::types::{
    ConnectionSetting, ConnectionSettingView, KnownNetwork, KnownNetworkView, REQUEST_ETHERNET,
};

verus! {

/// A basic parameter of a call.
#[derive(Debug)]
pub enum Base {
    Uint32(u32),
    Int32(i32),
    Boolean(bool),
    Text(String),
    /// A basic value of another type.
    Other,
}

/// The value of a `Base`.
pub enum BaseView {
    Uint32(u32),
    Int32(i32),
    Boolean(bool),
    Text(Seq<char>),
    Other,
}

impl View for Base {
    type V = BaseView;

    open spec fn view(&self) -> BaseView {
        match self {
            Base::Uint32(v) => BaseView::Uint32(*v),
            Base::Int32(v) => BaseView::Int32(*v),
            Base::Boolean(v) => BaseView::Boolean(*v),
            Base::Text(v) => BaseView::Text(v@),
            Base::Other => BaseView::Other,
        }
    }
}

/// A parameter of a call.
#[derive(Debug)]
pub enum Param {
    Base(Base),
    /// A struct of basic values.
    Struct(Vec<Base>),
    /// A container of another shape.
    Other,
}

/// The value of a `Param`.
pub enum ParamView {
    Base(BaseView),
    Struct(Seq<BaseView>),
    Other,
}

/// The values of a run of basic parameters.
pub open spec fn bases_view(v: Seq<Base>) -> Seq<BaseView> {
    Seq::new(v.len(), |i: int| v[i]@)
}

impl View for Param {
    type V = ParamView;

    open spec fn view(&self) -> ParamView {
        match self {
            Param::Base(b) => ParamView::Base(b@),
            Param::Struct(fields) => ParamView::Struct(bases_view(fields@)),
            Param::Other => ParamView::Other,
        }
    }
}

/// The values of a run of parameters.
pub open spec fn params_view(v: Seq<Param>) -> Seq<ParamView> {
    Seq::new(v.len(), |i: int| v[i]@)
}

/// The connect request that parameters spell: one struct of type, essid and
/// encryption flag, with a type that is known.
pub open spec fn setting_of(params: Seq<ParamView>) -> Option<ConnectionSettingView> {
    if params.len() == 1 && params[0] is Struct && params[0]->Struct_0.len() == 3 {
        let fields = params[0]->Struct_0;
        if fields[0] is Uint32 && fields[0]->Uint32_0 == REQUEST_ETHERNET {
            Some(ConnectionSettingView::Ethernet)
        } else if fields[0] is Uint32 && fields[1] is Text && fields[2] is Boolean {
            ConnectionSettingView::requested(
                fields[0]->Uint32_0,
                fields[1]->Text_0,
                fields[2]->Boolean_0,
            )
        } else {
            None
        }
    } else {
        None
    }
}

/// The essid that parameters spell: one string.
pub open spec fn essid_of(params: Seq<ParamView>) -> Option<Seq<char>> {
    if params.len() == 1 && params[0] is Base && params[0]->Base_0 is Text {
        Some(params[0]->Base_0->Text_0)
    } else {
        None
    }
}

/// The properties request that parameters spell: essid, password,
/// threshold, auto-join, whether there is a password, whether there is a
/// threshold.
pub open spec fn props_of(params: Seq<ParamView>) -> Option<(Seq<char>, KnownNetworkView)> {
    if params.len() == 6 && params[0] == ParamView::Base(BaseView::Text(text_of(params[0])))
        && params[1] == ParamView::Base(BaseView::Text(text_of(params[1]))) && params[2]
        == ParamView::Base(BaseView::Int32(int_of(params[2]))) && params[3] == ParamView::Base(
        BaseView::Boolean(flag_of(params[3])),
    ) && params[4] == ParamView::Base(BaseView::Boolean(flag_of(params[4]))) && params[5]
        == ParamView::Base(BaseView::Boolean(flag_of(params[5]))) {
        Some(
            (
                text_of(params[0]),
                KnownNetworkView {
                    auto: flag_of(params[3]),
                    password: if flag_of(params[4]) {
                        Some(text_of(params[1]))
                    } else {
                        None
                    },
                    threshold: if flag_of(params[5]) {
                        Some(int_of(params[2]))
                    } else {
                        None
                    },
                },
            ),
        )
    } else {
        None
    }
}

/// The string in a parameter that is one.
pub open spec fn text_of(p: ParamView) -> Seq<char> {
    p->Base_0->Text_0
}

/// The number in a parameter that is one.
pub open spec fn int_of(p: ParamView) -> i32 {
    p->Base_0->Int32_0
}

/// The flag in a parameter that is one.
pub open spec fn flag_of(p: ParamView) -> bool {
    p->Base_0->Boolean_0
}

fn as_text(p: &Param) -> (r: Result<String, ()>)
    ensures
        match r {
            Ok(s) => p@ == ParamView::Base(BaseView::Text(s@)),
            Err(_) => !(p@ is Base && p@->Base_0 is Text),
        },
{
    match p {
        Param::Base(Base::Text(s)) => Ok(s.clone()),
        _ => Err(()),
    }
}

fn as_flag(p: &Param) -> (r: Result<bool, ()>)
    ensures
        match r {
            Ok(b) => p@ == ParamView::Base(BaseView::Boolean(b)),
            Err(_) => !(p@ is Base && p@->Base_0 is Boolean),
        },
{
    match p {
        Param::Base(Base::Boolean(b)) => Ok(*b),
        _ => Err(()),
    }
}

fn as_int(p: &Param) -> (r: Result<i32, ()>)
    ensures
        match r {
            Ok(v) => p@ == ParamView::Base(BaseView::Int32(v)),
            Err(_) => !(p@ is Base && p@->Base_0 is Int32),
        },
{
    match p {
        Param::Base(Base::Int32(v)) => Ok(*v),
        _ => Err(()),
    }
}

impl ConnectionSetting {
    /// Reads a connect request from the parameters of a call.
    pub fn from_params(params: &Vec<Param>) -> (r: Result<ConnectionSetting, ()>)
        ensures
            match r {
                Ok(setting) => Some(setting@) == setting_of(params_view(params@)),
                Err(_) => setting_of(params_view(params@)) is None,
            },
    {
        if params.len() != 1 {
            return Err(());
        }
        assert(params_view(params@)[0] == params@[0]@);
        match &params[0] {
            Param::Struct(fields) => {
                if fields.len() != 3 {
                    return Err(());
                }
                assert(bases_view(fields@)[0] == fields@[0]@);
                assert(bases_view(fields@)[1] == fields@[1]@);
                assert(bases_view(fields@)[2] == fields@[2]@);
                let tp: u32 = match &fields[0] {
                    Base::Uint32(k) => *k,
                    _ => {
                        return Err(());
                    },
                };
                if tp == REQUEST_ETHERNET {
                    return Ok(ConnectionSetting::Ethernet);
                }
                match (&fields[1], &fields[2]) {
                    (Base::Text(essid), Base::Boolean(enc)) => ConnectionSetting::from_request(
                        tp,
                        essid.as_str(),
                        *enc,
                    ),
                    _ => Err(()),
                }
            },
            _ => Err(()),
        }
    }
}

/// Reads an essid from the parameters of a call.
pub fn essid_from_params(params: &Vec<Param>) -> (r: Result<String, ()>)
    ensures
        match r {
            Ok(essid) => Some(essid@) == essid_of(params_view(params@)),
            Err(_) => essid_of(params_view(params@)) is None,
        },
{
    if params.len() != 1 {
        return Err(());
    }
    assert(params_view(params@)[0] == params@[0]@);
    as_text(&params[0])
}

/// Reads a properties request from the parameters of a call.
pub fn props_from_params(params: &Vec<Param>) -> (r: Result<(String, KnownNetwork), ()>)
    ensures
        match r {
            Ok(pair) => Some((pair.0@, pair.1@)) == props_of(params_view(params@)),
            Err(_) => props_of(params_view(params@)) is None,
        },
{
    if params.len() != 6 {
        return Err(());
    }
    assert(params_view(params@)[0] == params@[0]@);
    assert(params_view(params@)[1] == params@[1]@);
    assert(params_view(params@)[2] == params@[2]@);
    assert(params_view(params@)[3] == params@[3]@);
    assert(params_view(params@)[4] == params@[4]@);
    assert(params_view(params@)[5] == params@[5]@);
    let essid = match as_text(&params[0]) {
        Ok(v) => v,
        Err(_) => {
            return Err(());
        },
    };
    let password = match as_text(&params[1]) {
        Ok(v) => v,
        Err(_) => {
            return Err(());
        },
    };
    let threshold = match as_int(&params[2]) {
        Ok(v) => v,
        Err(_) => {
            return Err(());
        },
    };
    let auto = match as_flag(&params[3]) {
        Ok(v) => v,
        Err(_) => {
            return Err(());
        },
    };
    let enc = match as_flag(&params[4]) {
        Ok(v) => v,
        Err(_) => {
            return Err(());
        },
    };
    let roaming = match as_flag(&params[5]) {
        Ok(v) => v,
        Err(_) => {
            return Err(());
        },
    };
    Ok((essid, KnownNetwork::new(auto, enc, roaming, password.as_str(), threshold)))
}

/// The strings among the parameters, each in its place.
pub open spec fn strings_of(params: Seq<ParamView>) -> Seq<Option<Seq<char>>> {
    Seq::new(
        params.len(),
        |i: int|
            if params[i] is Base && params[i]->Base_0 is Text {
                Some(params[i]->Base_0->Text_0)
            } else {
                None
            },
    )
}

/// Picks the strings among the parameters, each in its place.
pub fn strings_from_params(params: &Vec<Param>) -> (r: Vec<Option<String>>)
    ensures
        crate::proxy_tracker::texts_view(r@) == strings_of(params_view(params@)),
{
    let mut out: Vec<Option<String>> = Vec::new();
    let mut i: usize = 0;
    while i < params.len()
        invariant
            i <= params@.len(),
            out@.len() == i,
            forall|k: int|
                0 <= k < i ==> (match #[trigger] out@[k] {
                    Some(s) => Some(s@),
                    None => None,
                }) == strings_of(params_view(params@))[k],
        decreases params@.len() - i,
    {
        assert(params_view(params@)[i as int] == params@[i as int]@);
        match as_text(&params[i]) {
            Ok(s) => out.push(Some(s)),
            Err(_) => out.push(None),
        }
        i += 1;
    }
    assert(crate::proxy_tracker::texts_view(out@) =~= strings_of(params_view(params@)));
    out
}

} // verus!
